//! Word documents (DOCX): options, lists, attribute lookups in paragraph XML and
//! the synthetic pagination of the extracted elements.

use vstd::prelude::*;
use crate::config::{PipelineConfig, bool_opt, config_bool, config_u64, u64_opt};
use crate::chunking::utf8_len;
use crate::extractors::{diagnostic, document_notice, provenance};
use crate::model::{BBox, ContentMode, Diagnostic, Element, ElementType, Page, PageProfile, PageType};
use crate::text::{is_blank, str_is_blank};
use crate::unicode::{is_uppercase, unicode_uppercase};
use crate::text::{
    chars_of, decimal, decimal_string, find, find_chars, find_from, join, push_chars, push_str_chars,
    string_from_chars, to_owned_string, trim, views,
};

verus! {

/// The extractor of DOCX documents.
pub struct DocxExtractor;

impl DocxExtractor {
    pub fn name(&self) -> (s: &'static str)
        ensures
            s@ == "docx_extractor"@,
    {
        "docx_extractor"
    }
}

#[derive(Debug)]
pub struct DocxOptions {
    pub enabled: bool,
    pub extract_paragraphs: bool,
    pub extract_headings: bool,
    pub extract_lists: bool,
    pub extract_tables: bool,
    pub extract_images: bool,
    pub extract_footnotes: bool,
    pub extract_endnotes: bool,
    pub extract_comments: bool,
    pub extract_headers: bool,
    pub extract_footers: bool,
    pub extract_formulas: bool,
    pub extract_embedded_images: bool,
    pub synthetic_page_line_limit: usize,
}

impl Default for DocxOptions {
    fn default() -> (o: Self)
        ensures
            o.enabled && o.extract_paragraphs && o.extract_headings && o.extract_lists
                && o.extract_tables && o.extract_images && o.extract_footnotes && o.extract_endnotes
                && o.extract_comments && o.extract_headers && o.extract_footers && o.extract_formulas
                && o.extract_embedded_images,
            o.synthetic_page_line_limit == 80,
    {
        DocxOptions {
            enabled: true,
            extract_paragraphs: true,
            extract_headings: true,
            extract_lists: true,
            extract_tables: true,
            extract_images: true,
            extract_footnotes: true,
            extract_endnotes: true,
            extract_comments: true,
            extract_headers: true,
            extract_footers: true,
            extract_formulas: true,
            extract_embedded_images: true,
            synthetic_page_line_limit: 80,
        }
    }
}

/// The path `office.docx.<key>`.
pub open spec fn docx_key(key: Seq<char>) -> Seq<Seq<char>> {
    seq!["office"@, "docx"@, key]
}

/// The DOCX options that the pipeline configuration sets, the defaults for what
/// it leaves out.
pub fn read_docx_options(config: Option<&PipelineConfig>) -> (o: DocxOptions)
    ensures
        o.enabled == config_bool(config, seq!["office"@, "enabled"@], true),
        o.extract_paragraphs == config_bool(config, docx_key("extract_paragraphs"@), true),
        o.extract_headings == config_bool(config, docx_key("extract_headings"@), true),
        o.extract_lists == config_bool(config, docx_key("extract_lists"@), true),
        o.extract_tables == config_bool(config, docx_key("extract_tables"@), true),
        o.extract_images == config_bool(config, docx_key("extract_images"@), true),
        o.extract_footnotes == config_bool(config, docx_key("extract_footnotes"@), true),
        o.extract_endnotes == config_bool(config, docx_key("extract_endnotes"@), true),
        o.extract_comments == config_bool(config, docx_key("extract_comments"@), true),
        o.extract_headers == config_bool(config, docx_key("extract_headers"@), true),
        o.extract_footers == config_bool(config, docx_key("extract_footers"@), true),
        o.extract_formulas == config_bool(config, docx_key("extract_formulas"@), true),
        o.extract_embedded_images == config_bool(
            config,
            seq!["office"@, "embedded_images"@, "extract"@],
            true,
        ),
        o.synthetic_page_line_limit == config_u64(
            config,
            docx_key("synthetic_page_line_limit"@),
            80,
        ) as usize,
{
    let office_enabled = ["office", "enabled"];
    let embedded = ["office", "embedded_images", "extract"];
    proof {
        assert(office_enabled@.map_values(|s: &str| s@) =~= seq!["office"@, "enabled"@]);
        assert(embedded@.map_values(|s: &str| s@) =~= seq!["office"@, "embedded_images"@, "extract"@]);
    }
    DocxOptions {
        enabled: bool_opt(config, &office_enabled, true),
        extract_paragraphs: docx_flag(config, "extract_paragraphs"),
        extract_headings: docx_flag(config, "extract_headings"),
        extract_lists: docx_flag(config, "extract_lists"),
        extract_tables: docx_flag(config, "extract_tables"),
        extract_images: docx_flag(config, "extract_images"),
        extract_footnotes: docx_flag(config, "extract_footnotes"),
        extract_endnotes: docx_flag(config, "extract_endnotes"),
        extract_comments: docx_flag(config, "extract_comments"),
        extract_headers: docx_flag(config, "extract_headers"),
        extract_footers: docx_flag(config, "extract_footers"),
        extract_formulas: docx_flag(config, "extract_formulas"),
        extract_embedded_images: bool_opt(config, &embedded, true),
        synthetic_page_line_limit: {
            let path = ["office", "docx", "synthetic_page_line_limit"];
            proof {
                assert(path@.map_values(|s: &str| s@) =~= docx_key("synthetic_page_line_limit"@));
            }
            u64_opt(config, &path, 80) as usize
        },
    }
}

fn docx_flag(config: Option<&PipelineConfig>, key: &'static str) -> (r: bool)
    ensures
        r == config_bool(config, docx_key(key@), true),
{
    let path = ["office", "docx", key];
    proof {
        assert(path@.map_values(|s: &str| s@) =~= docx_key(key@));
    }
    bool_opt(config, &path, true)
}

/// The value of the attribute introduced by `marker` (such as `w:val=`): the text
/// between the quotes that follow it, `"` or `'`.
pub open spec fn attr_value_of(input: Seq<char>, marker: Seq<char>) -> Option<Seq<char>> {
    match find(input, marker) {
        None => None,
        Some(i) => {
            let rest = input.skip(i + marker.len());
            if rest.len() == 0 || (rest[0] != '"' && rest[0] != '\'') {
                None
            } else {
                let body = rest.drop_first();
                match find(body, seq![rest[0]]) {
                    None => None,
                    Some(e) => Some(body.take(e)),
                }
            }
        },
    }
}

fn skip_from(s: &[char], n: usize) -> (r: Vec<char>)
    requires
        n <= s@.len(),
    ensures
        r@ == s@.skip(n as int),
{
    let mut out: Vec<char> = Vec::new();
    let mut j: usize = n;
    while j < s.len()
        invariant
            n <= j <= s@.len(),
            out@ == s@.subrange(n as int, j as int),
        decreases s@.len() - j,
    {
        out.push(s[j]);
        j = j + 1;
        assert(out@ =~= s@.subrange(n as int, j as int));
    }
    assert(out@ =~= s@.skip(n as int));
    out
}

proof fn lemma_find_bounds(hay: Seq<char>, needle: Seq<char>, from: int)
    ensures
        match find_from(hay, needle, from) {
            Some(i) => from <= i && i + needle.len() <= hay.len(),
            None => true,
        },
    decreases hay.len() + 1 - from,
{
    if !(from < 0 || from + needle.len() > hay.len()) && !crate::text::occurs_at(hay, needle, from) {
        lemma_find_bounds(hay, needle, from + 1);
    }
}

pub fn attr_value(input: &str, marker: &str) -> (r: Option<String>)
    ensures
        match attr_value_of(input@, marker@) {
            Some(v) => r.is_some() && r.unwrap()@ == v,
            None => r.is_none(),
        },
{
    let s = chars_of(input);
    let m = chars_of(marker);
    let i = match find_chars(s.as_slice(), m.as_slice()) {
        Some(i) => i,
        None => return None,
    };
    proof {
        lemma_find_bounds(input@, marker@, 0);
        assert(find(input@, marker@) == Some(i as int));
        assert(i + marker@.len() <= input@.len());
        assert(s@.len() == input@.len());
    }
    let total = s.len();
    assert(i + m@.len() <= total);
    let rest = skip_from(s.as_slice(), i + m.len());
    if rest.len() == 0 {
        return None;
    }
    let quote = rest[0];
    if quote != '"' && quote != '\'' {
        return None;
    }
    let body = skip_from(rest.as_slice(), 1);
    let mut q: Vec<char> = Vec::new();
    q.push(quote);
    assert(q@ =~= seq![quote]);
    assert(body@ =~= rest@.drop_first());
    let e = match find_chars(body.as_slice(), q.as_slice()) {
        Some(e) => e,
        None => return None,
    };
    proof {
        lemma_find_bounds(body@, q@, 0);
    }
    let mut out: Vec<char> = Vec::new();
    let mut k: usize = 0;
    while k < e
        invariant
            k <= e <= body@.len(),
            out@ == body@.take(k as int),
        decreases e - k,
    {
        out.push(body[k]);
        k = k + 1;
        assert(out@ =~= body@.take(k as int));
    }
    Some(string_from_chars(out.as_slice()))
}

/// The attribute value found after the first `tag` in `scope`.
pub open spec fn scoped_attr_value_of(scope: Seq<char>, tag: Seq<char>, marker: Seq<char>) -> Option<Seq<char>> {
    match find(scope, tag) {
        None => None,
        Some(i) => attr_value_of(scope.skip(i), marker),
    }
}

pub fn scoped_attr_value(scope: &str, tag: &str, marker: &str) -> (r: Option<String>)
    ensures
        match scoped_attr_value_of(scope@, tag@, marker@) {
            Some(v) => r.is_some() && r.unwrap()@ == v,
            None => r.is_none(),
        },
{
    let s = chars_of(scope);
    let t = chars_of(tag);
    let i = match find_chars(s.as_slice(), t.as_slice()) {
        Some(i) => i,
        None => return None,
    };
    proof {
        lemma_find_bounds(scope@, tag@, 0);
    }
    let scoped = string_from_chars(skip_from(s.as_slice(), i).as_slice());
    attr_value(scoped.as_str(), marker)
}

/// The value of the first of two markers that yields one.
pub open spec fn either(a: Option<Seq<char>>, b: Option<Seq<char>>) -> Option<Seq<char>> {
    match a {
        Some(v) => Some(v),
        None => b,
    }
}

/// The style of a paragraph (`<w:pStyle w:val="...">`).
pub fn paragraph_style_id(xml: &str) -> (r: Option<String>)
    ensures
        match either(
            scoped_attr_value_of(xml@, "<w:pStyle"@, "w:val="@),
            scoped_attr_value_of(xml@, "<w:pStyle"@, "val="@),
        ) {
            Some(v) => r.is_some() && r.unwrap()@ == v,
            None => r.is_none(),
        },
{
    match scoped_attr_value(xml, "<w:pStyle", "w:val=") {
        Some(v) => Some(v),
        None => scoped_attr_value(xml, "<w:pStyle", "val="),
    }
}

/// The numbering of a paragraph (`<w:numId w:val="...">`).
pub fn paragraph_num_id(xml: &str) -> (r: Option<String>)
    ensures
        match either(
            scoped_attr_value_of(xml@, "<w:numId"@, "w:val="@),
            scoped_attr_value_of(xml@, "<w:numId"@, "val="@),
        ) {
            Some(v) => r.is_some() && r.unwrap()@ == v,
            None => r.is_none(),
        },
{
    match scoped_attr_value(xml, "<w:numId", "w:val=") {
        Some(v) => Some(v),
        None => scoped_attr_value(xml, "<w:numId", "val="),
    }
}

/// What the `regex` crate finds as capture group 1 of each match of a pattern in a
/// text, in order (`None` for a match in which the group took no part; nothing
/// where the pattern does not compile).
pub uninterp spec fn regex_group1_captures(pattern: Seq<char>, text: Seq<char>) -> Option<Seq<Option<Seq<char>>>>;

/// The texts of the optional strings.
pub open spec fn opt_views(v: Seq<Option<String>>) -> Seq<Option<Seq<char>>> {
    v.map_values(|o: Option<String>| match o {
        Some(s) => Some(s@),
        None => None,
    })
}

/// The values that are there, in order.
pub open spec fn somes(v: Seq<Option<Seq<char>>>) -> Seq<Seq<char>>
    decreases v.len(),
{
    if v.len() == 0 {
        Seq::empty()
    } else {
        match v.last() {
            Some(t) => somes(v.drop_last()).push(t),
            None => somes(v.drop_last()),
        }
    }
}

/// Compiles `pattern` with `regex::Regex::new` and collects, over
/// `captures_iter(text)`, the text of capture group 1 of each match, where the
/// group took part. Besides naming the result, the contract states that there are
/// at most one more matches than the text has characters: matches do not overlap,
/// and an empty one is never reported inside a character.
#[verifier::external_body]
pub(crate) fn regex_captures(pattern: &str, text: &str) -> (r: Option<Vec<Option<String>>>)
    ensures
        match regex_group1_captures(pattern@, text@) {
            Some(v) => r.is_some() && opt_views(r.unwrap()@) == v,
            None => r.is_none(),
        },
        r matches Some(v) ==> v@.len() <= text@.len() + 1,
{
    match regex::Regex::new(pattern) {
        Ok(re) => Some(re.captures_iter(text).map(|cap| cap.get(1).map(|m| m.as_str().to_string())).collect()),
        Err(_) => None,
    }
}

/// The strings that are there, in order.
pub(crate) fn present_strings(v: Vec<Option<String>>) -> (r: Vec<String>)
    ensures
        views(r@) == somes(opt_views(v@)),
{
    let ghost all = opt_views(v@);
    let mut out: Vec<String> = Vec::new();
    let mut rest = v;
    let ghost vv = rest@;
    let mut i: usize = 0;
    assert(vv.len() == rest.len());
    while rest.len() > 0
        invariant
            i + rest@.len() == vv.len(),
            vv.len() <= usize::MAX,
            rest@ == vv.skip(i as int),
            all == opt_views(vv),
            views(out@) == somes(all.take(i as int)),
        decreases rest@.len(),
    {
        proof {
            assert(all.take(i + 1).drop_last() =~= all.take(i as int));
            assert(vv.skip(i as int)[0] == vv[i as int]);
        }
        let o = rest.remove(0);
        match o {
            Some(t) => {
                out.push(t);
                assert(views(out@) =~= somes(all.take(i as int)).push(all[i as int]->Some_0));
            },
            None => {},
        }
        i = i + 1;
        assert(vv.skip(i as int) =~= vv.skip(i - 1).drop_first());
    }
    assert(all.take(i as int) =~= all);
    out
}

/// The relationship identifiers of the images a paragraph embeds
/// (`r:embed="..."`).
pub fn paragraph_embedded_rids(xml: &str) -> (r: Vec<String>)
    ensures
        match regex_group1_captures("r:embed=\"([^\"]+)\""@, xml@) {
            Some(v) => views(r@) == somes(v),
            None => r@.len() == 0,
        },
{
    match regex_captures("r:embed=\"([^\"]+)\"", xml) {
        Some(v) => present_strings(v),
        None => Vec::new(),
    }
}

/// How many lines a text takes on a synthetic page: its own lines (at least one),
/// or one more than its characters fill at 80 a line, whichever is more.
pub open spec fn lines_needed(text: Seq<char>) -> nat {
    let hard = crate::extractors::txt::text_lines(text).len();
    let hard1 = if hard > 1 { hard } else { 1 };
    let soft = text.len() / 80 + 1;
    if hard1 >= soft {
        hard1
    } else {
        soft
    }
}

pub fn estimate_lines(text: &str) -> (n: usize)
    ensures
        n == lines_needed(text@),
{
    let v = chars_of(text);
    let lines = crate::extractors::txt::lines_of(v.as_slice());
    let hard = if lines.len() > 1 {
        lines.len()
    } else {
        1
    };
    let soft = v.len() / 80 + 1;
    if hard >= soft {
        hard
    } else {
        soft
    }
}

/// An element waiting to be placed on a page, with the lines it takes.
#[derive(Debug)]
pub struct CandidateElement {
    pub element: Element,
    pub estimated_lines: usize,
}

/// A list being gathered paragraph by paragraph.
#[derive(Debug)]
pub struct PendingList {
    pub list_type: String,
    pub items: Vec<String>,
}

/// The markdown lines of a list: numbered `1. item` for an ordered list, `- item`
/// otherwise.
pub open spec fn list_lines(ordered: bool, items: Seq<Seq<char>>) -> Seq<Seq<char>> {
    Seq::new(
        items.len(),
        |i: int|
            if ordered {
                decimal((i + 1) as nat) + ". "@ + items[i]
            } else {
                "- "@ + items[i]
            },
    )
}

/// `c` is the candidate made of a finished list with the given type and items,
/// numbered `count + 1` among the lists.
pub open spec fn list_candidate(c: CandidateElement, list_type: Seq<char>, items: Seq<Seq<char>>, count: nat) -> bool {
    let ordered = list_type == "ol"@;
    let e = c.element;
    &&& e.element_id@ == "docx_list_"@ + decimal(count + 1)
    &&& e.element_type == ElementType::List
    &&& e.tag.is_some() && e.tag.unwrap()@ == "w:numPr"@
    &&& e.role.is_some() && e.role.unwrap()@ == (if ordered {
        "ordered_list"@
    } else {
        "unordered_list"@
    })
    &&& e.reading_order.is_none() && e.global_order.is_none() && e.bbox.is_none()
    &&& e.text.is_some() && e.text.unwrap()@ == join(items, "\n"@)
    &&& e.markdown.is_some() && e.markdown.unwrap()@ == join(list_lines(ordered, items), "\n"@)
    &&& e.raw.is_some() && e.raw.unwrap()@ == join(items, "\n"@)
    &&& e.html.is_none()
    &&& views(e.items@) == items
    &&& e.provenance.tool@ == "docx_ooxml_parser"@
    &&& e.provenance.stage@ == "docx_list_extraction"@
    &&& e.confidence_permille == 990
    &&& e.extra@.len() == 1 && e.extra@[0].0@ == "list_type"@ && e.extra@[0].1@ == list_type
    &&& c.estimated_lines == (if items.len() > 1 {
        items.len()
    } else {
        1
    })
}

fn copy_strings(v: &Vec<String>) -> (r: Vec<String>)
    ensures
        views(r@) == views(v@),
{
    let mut out: Vec<String> = Vec::new();
    let mut i: usize = 0;
    while i < v.len()
        invariant
            i <= v@.len(),
            views(out@) == views(v@.take(i as int)),
        decreases v@.len() - i,
    {
        let ghost before = out@;
        let c = v[i].clone();
        out.push(c);
        proof {
            assert(views(out@) =~= views(before).push(v@[i as int]@));
            assert(v@.take(i + 1) =~= v@.take(i as int).push(v@[i as int]));
            assert(views(v@.take(i + 1)) =~= views(v@.take(i as int)).push(v@[i as int]@));
        }
        i = i + 1;
    }
    assert(v@.take(i as int) =~= v@);
    out
}

/// Turns a finished list into a candidate element. The pending list is taken in
/// any case; an empty list makes nothing.
pub fn flush_pending_list(
    pending: &mut Option<PendingList>,
    out: &mut Vec<CandidateElement>,
    list_count: &mut usize,
)
    requires
        *old(list_count) < usize::MAX,
    ensures
        final(pending).is_none(),
        match *old(pending) {
            Some(list) => if list.items@.len() > 0 {
                &&& final(out)@.len() == old(out)@.len() + 1
                &&& final(out)@.drop_last() == old(out)@
                &&& list_candidate(
                    final(out)@.last(),
                    list.list_type@,
                    views(list.items@),
                    *old(list_count) as nat,
                )
                &&& *final(list_count) == *old(list_count) + 1
            } else {
                *final(out) == *old(out) && *final(list_count) == *old(list_count)
            },
            None => *final(out) == *old(out) && *final(list_count) == *old(list_count),
        },
{
    let list = match pending.take() {
        Some(l) => l,
        None => return,
    };
    if list.items.len() == 0 {
        return;
    }
    let lt = chars_of(list.list_type.as_str());
    let ordered = crate::classifier::chars_eq(lt.as_slice(), "ol");
    let ghost items = views(list.items@);
    let mut lines: Vec<String> = Vec::new();
    let mut i: usize = 0;
    while i < list.items.len()
        invariant
            i <= list.items@.len(),
            items == views(list.items@),
            views(lines@) == list_lines(ordered, items).take(i as int),
        decreases list.items@.len() - i,
    {
        let mut l: Vec<char> = Vec::new();
        if ordered {
            push_str_chars(&mut l, decimal_string(i as u64 + 1).as_str());
            push_str_chars(&mut l, ". ");
        } else {
            push_str_chars(&mut l, "- ");
        }
        push_str_chars(&mut l, list.items[i].as_str());
        let ghost before = lines@;
        lines.push(string_from_chars(l.as_slice()));
        proof {
            assert(views(lines@) =~= views(before).push(list_lines(ordered, items)[i as int]));
            assert(list_lines(ordered, items).take(i + 1) =~= list_lines(ordered, items).take(
                i as int,
            ).push(list_lines(ordered, items)[i as int]));
        }
        i = i + 1;
    }
    assert(list_lines(ordered, items).take(i as int) =~= list_lines(ordered, items));
    let markdown = crate::text::join_strings(&lines, "\n");
    let text = crate::text::join_strings(&list.items, "\n");
    let mut id: Vec<char> = Vec::new();
    push_str_chars(&mut id, "docx_list_");
    push_str_chars(&mut id, decimal_string(*list_count as u64 + 1).as_str());
    let mut extra: Vec<(String, String)> = Vec::new();
    extra.push((to_owned_string("list_type"), list.list_type.clone()));
    let n = list.items.len();
    let element = Element {
        element_id: string_from_chars(id.as_slice()),
        element_type: ElementType::List,
        tag: Some(to_owned_string("w:numPr")),
        role: Some(
            if ordered {
                to_owned_string("ordered_list")
            } else {
                to_owned_string("unordered_list")
            },
        ),
        reading_order: None,
        global_order: None,
        bbox: None,
        text: Some(text.clone()),
        markdown: Some(markdown),
        html: None,
        normalized_text: None,
        raw: Some(text),
        items: copy_strings(&list.items),
        exclude_from_chunks: false,
        table_linearized: Vec::new(),
        provenance: provenance("docx_ooxml_parser", "docx_list_extraction", "xml", "word/document.xml"),
        confidence_permille: crate::extractors::default_confidence(),
        warnings: Vec::new(),
        extra,
    };
    out.push(CandidateElement { element, estimated_lines: if n > 1 { n } else { 1 } });
    *list_count = *list_count + 1;
    assert(out@.drop_last() =~= old(out)@);
}

/// The texts (or markdowns) of the elements that have a non-blank one.
pub open spec fn filled(vals: Seq<Option<String>>) -> Seq<Seq<char>>
    decreases vals.len(),
{
    if vals.len() == 0 {
        Seq::empty()
    } else {
        let rest = filled(vals.drop_last());
        match vals.last() {
            Some(t) => if trim(t@).len() > 0 {
                rest.push(t@)
            } else {
                rest
            },
            None => rest,
        }
    }
}

pub open spec fn texts_of(es: Seq<Element>) -> Seq<Option<String>> {
    es.map_values(|e: Element| e.text)
}

pub open spec fn markdowns_of(es: Seq<Element>) -> Seq<Option<String>> {
    es.map_values(|e: Element| e.markdown)
}

pub open spec fn any_of_kind(es: Seq<Element>, t: ElementType) -> bool {
    exists|i: int| 0 <= i < es.len() && (#[trigger] es[i]).element_type == t
}

/// The synthetic page `p` numbered `page_number` holding `es`: its text is the
/// non-blank texts joined by newlines, its markdown the non-blank markdowns joined
/// by blank lines.
pub open spec fn docx_page(p: Page, page_number: u32, es: Seq<Element>) -> bool {
    let text = join(filled(texts_of(es)), "\n"@);
    &&& p.page_number == page_number
    &&& p.page_type == PageType::DocumentPage
    &&& p.width == Some(1000i64)
    &&& p.height == Some(1400i64)
    &&& p.page_image_asset_id.is_none()
    &&& p.elements@ == es
    &&& p.text@ == text
    &&& p.markdown@ == join(filled(markdowns_of(es)), "\n\n"@)
    &&& p.html@.len() == 0
    &&& p.warnings@.len() == 0
    &&& p.page_profile.content_mode == ContentMode::Digital
    &&& p.page_profile.has_native_text == (trim(text).len() > 0)
    &&& p.page_profile.has_tables == any_of_kind(es, ElementType::Table)
    &&& p.page_profile.has_images == any_of_kind(es, ElementType::Image)
    &&& p.page_profile.has_formulas == any_of_kind(es, ElementType::Formula)
    &&& !p.page_profile.has_ocr_required_regions && !p.page_profile.has_handwriting
    &&& p.page_profile.language.is_some() && p.page_profile.language.unwrap()@ == "ru"@
    &&& p.page_profile.confidence_permille == 920
}

fn filled_strings(vals: &Vec<Element>, markdown: bool) -> (r: Vec<String>)
    ensures
        views(r@) == filled(if markdown {
            markdowns_of(vals@)
        } else {
            texts_of(vals@)
        }),
{
    let ghost src = if markdown {
        markdowns_of(vals@)
    } else {
        texts_of(vals@)
    };
    let mut out: Vec<String> = Vec::new();
    let mut i: usize = 0;
    while i < vals.len()
        invariant
            i <= vals@.len(),
            src == (if markdown {
                markdowns_of(vals@)
            } else {
                texts_of(vals@)
            }),
            views(out@) == filled(src.take(i as int)),
        decreases vals@.len() - i,
    {
        proof {
            assert(src.take(i + 1).drop_last() =~= src.take(i as int));
            assert(src.take(i + 1).last() == src[i as int]);
        }
        let v = if markdown {
            &vals[i].markdown
        } else {
            &vals[i].text
        };
        let ghost before = out@;
        match v {
            Some(t) => {
                if !crate::text::str_is_blank(t.as_str()) {
                    out.push(t.clone());
                    assert(views(out@) =~= views(before).push(t@));
                }
            },
            None => {},
        }
        i = i + 1;
    }
    assert(src.take(i as int) =~= src);
    out
}

pub(crate) fn any_kind(es: &Vec<Element>, t: ElementType) -> (r: bool)
    ensures
        r == any_of_kind(es@, t),
{
    let mut i: usize = 0;
    while i < es.len()
        invariant
            i <= es@.len(),
            forall|k: int| 0 <= k < i ==> (#[trigger] es@[k]).element_type != t,
        decreases es@.len() - i,
    {
        if es[i].element_type == t {
            return true;
        }
        i = i + 1;
    }
    false
}

pub fn build_docx_page(page_number: u32, elements: Vec<Element>) -> (p: Page)
    ensures
        docx_page(p, page_number, elements@),
{
    let texts = filled_strings(&elements, false);
    let markdowns = filled_strings(&elements, true);
    let text = crate::text::join_strings(&texts, "\n");
    let markdown = crate::text::join_strings(&markdowns, "\n\n");
    let has_tables = any_kind(&elements, ElementType::Table);
    let has_images = any_kind(&elements, ElementType::Image);
    let has_formulas = any_kind(&elements, ElementType::Formula);
    let native = !crate::text::str_is_blank(text.as_str());
    Page {
        page_number,
        page_type: PageType::DocumentPage,
        width: Some(1000),
        height: Some(1400),
        page_image_asset_id: None,
        page_profile: PageProfile {
            content_mode: ContentMode::Digital,
            has_native_text: native,
            has_ocr_required_regions: false,
            has_tables,
            has_images,
            has_formulas,
            has_handwriting: false,
            language: Some(to_owned_string("ru")),
            confidence_permille: 920,
        },
        elements,
        text,
        markdown,
        html: String::new(),
        warnings: Vec::new(),
    }
}

/// The element of the `index`-th embedded image, stored as the asset `asset_id`:
/// an image with an empty text, the markdown `![DOCX image]` and the asset named
/// in its extra entries.
pub fn make_image_element(index: usize, asset_id: &str) -> (e: Element)
    ensures
        e.element_id@ == "docx_image_"@ + decimal(index as nat),
        e.element_type == ElementType::Image,
        e.tag.is_some() && e.tag.unwrap()@ == "w:drawing"@,
        e.role.is_some() && e.role.unwrap()@ == "embedded_image"@,
        e.reading_order.is_none() && e.global_order.is_none() && e.bbox.is_none(),
        e.text.is_some() && e.text.unwrap()@.len() == 0,
        e.markdown.is_some() && e.markdown.unwrap()@ == "![DOCX image]"@,
        e.html.is_none(),
        e.normalized_text.is_some() && e.normalized_text.unwrap()@.len() == 0,
        e.raw.is_none(),
        e.provenance.method@ == "native"@,
        e.provenance.tool@ == "docx_ooxml_parser"@,
        e.provenance.stage@ == "docx_media_extraction"@,
        e.provenance.source_kind.is_none() && e.provenance.source_value.is_none(),
        e.confidence_permille == 990,
        e.warnings@.len() == 0,
        e.extra@.len() == 1 && e.extra@[0].0@ == "asset_id"@ && e.extra@[0].1@ == asset_id@,
{
    let mut id: Vec<char> = Vec::new();
    crate::text::push_str_chars(&mut id, "docx_image_");
    let digits = crate::text::decimal_chars(index as u64);
    crate::text::push_chars(&mut id, digits.as_slice());
    let mut extra: Vec<(String, String)> = Vec::new();
    extra.push((crate::text::to_owned_string("asset_id"), crate::text::to_owned_string(asset_id)));
    Element {
        element_id: crate::text::string_from_chars(id.as_slice()),
        element_type: ElementType::Image,
        tag: Some(crate::text::to_owned_string("w:drawing")),
        role: Some(crate::text::to_owned_string("embedded_image")),
        reading_order: None,
        global_order: None,
        bbox: None,
        text: Some(String::new()),
        markdown: Some(crate::text::to_owned_string("![DOCX image]")),
        html: None,
        normalized_text: Some(String::new()),
        raw: None,
        items: Vec::new(),
        exclude_from_chunks: false,
        table_linearized: Vec::new(),
        provenance: crate::model::Provenance {
            method: crate::text::to_owned_string("native"),
            tool: crate::text::to_owned_string("docx_ooxml_parser"),
            stage: crate::text::to_owned_string("docx_media_extraction"),
            source_kind: None,
            source_value: None,
        },
        confidence_permille: crate::extractors::default_confidence(),
        warnings: Vec::new(),
        extra,
    }
}

/// An empty synthetic page.
pub fn empty_docx_page(page_number: u32) -> (p: Page)
    ensures
        p.page_number == page_number,
        p.page_type == PageType::DocumentPage,
        p.width == Some(1000i64),
        p.height == Some(1400i64),
        p.elements@.len() == 0,
        p.text@.len() == 0,
        p.markdown@.len() == 0,
        p.html@.len() == 0,
        !p.page_profile.has_native_text,
        !p.page_profile.has_tables && !p.page_profile.has_images && !p.page_profile.has_formulas,
        p.page_profile.confidence_permille == 800,
{
    Page {
        page_number,
        page_type: PageType::DocumentPage,
        width: Some(1000),
        height: Some(1400),
        page_image_asset_id: None,
        page_profile: PageProfile {
            content_mode: ContentMode::Digital,
            has_native_text: false,
            has_ocr_required_regions: false,
            has_tables: false,
            has_images: false,
            has_formulas: false,
            has_handwriting: false,
            language: Some(to_owned_string("ru")),
            confidence_permille: 800,
        },
        elements: Vec::new(),
        text: String::new(),
        markdown: String::new(),
        html: String::new(),
        warnings: Vec::new(),
    }
}

/// Where a candidate lands: its page and position there (from 0), the line it
/// starts at and the lines it takes.
pub struct Placement {
    pub page: nat,
    pub local: nat,
    pub offset: nat,
    pub needed: nat,
}

/// The pagination so far: the open page, how many elements and lines it holds,
/// and for each closed page its element count and lines used.
pub struct PageFill {
    pub page: nat,
    pub count: nat,
    pub lines: nat,
    pub sizes: Seq<nat>,
    pub used: Seq<nat>,
    pub placed: Seq<Placement>,
}

/// The lines a candidate takes: its estimate, at least one.
pub open spec fn needed_of(c: CandidateElement) -> nat {
    if c.estimated_lines > 1 {
        c.estimated_lines as nat
    } else {
        1
    }
}

/// One more element taking `needed` lines: it opens a new page when it would pass
/// the limit on a page that already holds something.
pub open spec fn fill_step(st: PageFill, needed: nat, limit: nat) -> PageFill {
    if st.lines + needed > limit && st.count > 0 {
        PageFill {
            page: st.page + 1,
            count: 1,
            lines: needed,
            sizes: st.sizes.push(st.count),
            used: st.used.push(st.lines),
            placed: st.placed.push(Placement { page: st.page + 1, local: 0, offset: 0, needed }),
        }
    } else {
        PageFill {
            count: st.count + 1,
            lines: st.lines + needed,
            placed: st.placed.push(Placement { page: st.page, local: st.count, offset: st.lines, needed }),
            ..st
        }
    }
}

pub open spec fn fill_all(needs: Seq<nat>, limit: nat) -> PageFill
    decreases needs.len(),
{
    if needs.len() == 0 {
        PageFill { page: 0, count: 0, lines: 0, sizes: Seq::empty(), used: Seq::empty(), placed: Seq::empty() }
    } else {
        fill_step(fill_all(needs.drop_last(), limit), needs.last(), limit)
    }
}

/// No running line count passes the largest `usize` on the way.
pub open spec fn fill_fits(needs: Seq<nat>, limit: nat) -> bool
    decreases needs.len(),
{
    if needs.len() == 0 {
        true
    } else {
        fill_fits(needs.drop_last(), limit) && fill_all(needs.drop_last(), limit).lines + needs.last()
            <= usize::MAX
    }
}

pub open spec fn needs_of(cs: Seq<CandidateElement>) -> Seq<nat> {
    cs.map_values(|c: CandidateElement| needed_of(c))
}

/// The element as placed: numbered on its page and in the document, with a box
/// 16 units a line.
pub open spec fn positioned(e: Element, page_number: nat, local: nat, global: nat, offset: nat, needed: nat) -> Element {
    Element {
        element_id: e.element_id,
        reading_order: Some(local as u32),
        global_order: Some(global as u32),
        bbox: Some(
            BBox { x0: 0, y0: (16 * offset) as i64, x1: 1000, y1: (16 * (offset + needed)) as i64 },
        ),
        ..e
    }
}

/// The element `n` is `o` placed as `pl` with global number `global`.
pub open spec fn placed_element(n: Element, o: Element, pl: Placement, global: nat) -> bool {
    &&& n == Element { element_id: n.element_id, ..positioned(o, pl.page + 1, pl.local + 1, global, pl.offset, pl.needed) }
    &&& n.element_id@ == "p"@ + decimal(pl.page + 1) + "_e"@ + decimal(pl.local + 1)
}

/// The pages of the candidates: each page in turn filled up to the line limit, an
/// element that does not fit starting the next page.
pub open spec fn paginated(pages: Seq<Page>, cs: Seq<CandidateElement>, limit: nat) -> bool {
    if cs.len() == 0 {
        pages.len() == 1 && pages[0].page_number == 1 && pages[0].elements@.len() == 0
    } else {
        let st = fill_all(needs_of(cs), limit);
        let sizes = st.sizes.push(st.count);
        &&& pages.len() == sizes.len()
        &&& forall|p: int| 0 <= p < pages.len() ==> #[trigger] pages[p].elements@.len() == sizes[p]
            && docx_page(pages[p], (p + 1) as u32, pages[p].elements@)
        &&& forall|k: int|
            #![trigger st.placed[k]]
            0 <= k < cs.len() ==> placed_element(
                pages[st.placed[k].page as int].elements@[st.placed[k].local as int],
                cs[k].element,
                st.placed[k],
                (k + 1) as nat,
            )
    }
}

proof fn lemma_fill_shape(needs: Seq<nat>, limit: nat)
    ensures
        ({
            let st = fill_all(needs, limit);
            &&& st.placed.len() == needs.len()
            &&& st.sizes.len() == st.page
            &&& st.used.len() == st.page
            &&& st.page <= needs.len()
            &&& (needs.len() > 0 ==> st.count > 0)
            &&& st.count <= needs.len()
            &&& forall|k: int|
                #![trigger st.placed[k]]
                0 <= k < needs.len() ==> {
                    &&& st.placed[k].needed == needs[k]
                    &&& st.placed[k].page <= st.page
                    &&& (st.placed[k].page < st.page ==> st.placed[k].local < st.sizes[st.placed[k].page as int])
                    &&& (st.placed[k].page == st.page ==> st.placed[k].local < st.count)
                }
        }),
    decreases needs.len(),
{
    if needs.len() > 0 {
        lemma_fill_shape(needs.drop_last(), limit);
    }
}

/// Pagination never overfills a page: a page passes the line limit only when it
/// holds a single element that is longer than the limit by itself.
pub proof fn law_pages_respect_line_limit(needs: Seq<nat>, limit: nat)
    ensures
        ({
            let st = fill_all(needs, limit);
            &&& forall|p: int| 0 <= p < st.used.len() ==> #[trigger] st.used[p] <= limit || st.sizes[p] == 1
            &&& st.lines <= limit || st.count <= 1
        }),
    decreases needs.len(),
{
    if needs.len() > 0 {
        law_pages_respect_line_limit(needs.drop_last(), limit);
        lemma_fill_shape(needs.drop_last(), limit);
    }
}

/// Lays the candidates out on synthetic pages of `line_limit` lines, numbering
/// each element on its page and across the document.
#[verifier::spinoff_prover]
#[verifier::rlimit(50)]
pub fn paginate_candidates(candidates: Vec<CandidateElement>, line_limit: usize, notes_count: usize) -> (pages: Vec<Page>)
    requires
        candidates@.len() < u32::MAX,
        fill_fits(needs_of(candidates@), line_limit as nat),
    ensures
        paginated(pages@, candidates@, line_limit as nat),
{
    let ghost cs = candidates@;
    let ghost needs = needs_of(cs);
    let ghost limit = line_limit as nat;
    if candidates.len() == 0 {
        let mut pages: Vec<Page> = Vec::new();
        pages.push(empty_docx_page(1));
        return pages;
    }
    let _ = notes_count;
    let n = candidates.len();
    let mut rest = candidates;
    let mut pages: Vec<Page> = Vec::new();
    let mut current: Vec<Element> = Vec::new();
    let mut current_lines: usize = 0;
    let mut page_number: u32 = 1;
    let mut global_order: u32 = 1;
    let mut k: usize = 0;
    proof {
        assert(cs.take(0) =~= Seq::<CandidateElement>::empty());
        assert(needs.take(0) =~= Seq::<nat>::empty());
    }
    while rest.len() > 0
        invariant
            n == cs.len(),
            n < u32::MAX,
            needs == needs_of(cs),
            limit == line_limit as nat,
            k + rest@.len() == n,
            rest@ == cs.skip(k as int),
            fill_fits(needs, limit),
            page_number as nat == fill_all(needs.take(k as int), limit).page + 1,
            current@.len() == fill_all(needs.take(k as int), limit).count,
            current_lines as nat == fill_all(needs.take(k as int), limit).lines,
            pages@.len() == fill_all(needs.take(k as int), limit).page,
            global_order as nat == k + 1,
            forall|p: int| 0 <= p < pages@.len() ==> #[trigger] pages@[p].elements@.len() == fill_all(
                needs.take(k as int),
                limit,
            ).sizes[p] && docx_page(pages@[p], (p + 1) as u32, pages@[p].elements@),
            forall|q: int|
                0 <= q < k ==> #[trigger] fill_all(needs.take(k as int), limit).placed[q].page
                    < fill_all(needs.take(k as int), limit).page ==> placed_element(
                    pages@[fill_all(needs.take(k as int), limit).placed[q].page as int].elements@[fill_all(
                        needs.take(k as int),
                        limit,
                    ).placed[q].local as int],
                    cs[q].element,
                    fill_all(needs.take(k as int), limit).placed[q],
                    (q + 1) as nat,
                ),
            forall|q: int|
                0 <= q < k ==> #[trigger] fill_all(needs.take(k as int), limit).placed[q].page
                    == fill_all(needs.take(k as int), limit).page ==> placed_element(
                    current@[fill_all(needs.take(k as int), limit).placed[q].local as int],
                    cs[q].element,
                    fill_all(needs.take(k as int), limit).placed[q],
                    (q + 1) as nat,
                ),
        decreases rest@.len(),
    {
        let ghost prev = fill_all(needs.take(k as int), limit);
        proof {
            assert(needs.take(k + 1).drop_last() =~= needs.take(k as int));
            assert(needs.take(k + 1).last() == needs[k as int]);
            lemma_fill_shape(needs.take(k as int), limit);
            lemma_fits_prefix(needs, limit, k + 1);
            assert(fill_fits(needs.take(k + 1), limit));
            assert(cs.skip(k as int)[0] == cs[k as int]);
        }
        let candidate = rest.remove(0);
        let needed: usize = if candidate.estimated_lines > 1 {
            candidate.estimated_lines
        } else {
            1
        };
        assert(needed as nat == needs[k as int]);
        let mut e = candidate.element;
        let ghost o = e;
        if current_lines + needed > line_limit && current.len() > 0 {
            let mut full: Vec<Element> = Vec::new();
            std::mem::swap(&mut full, &mut current);
            pages.push(build_docx_page(page_number, full));
            page_number = page_number + 1;
            current_lines = 0;
        }
        let local_order: u32 = current.len() as u32 + 1;
        let y0: i64 = (16 * (current_lines as u128)) as i64;
        let y1: i64 = (16 * ((current_lines as u128) + (needed as u128))) as i64;
        e.reading_order = Some(local_order);
        e.global_order = Some(global_order);
        let mut id: Vec<char> = Vec::new();
        push_str_chars(&mut id, "p");
        push_str_chars(&mut id, decimal_string(page_number as u64).as_str());
        push_str_chars(&mut id, "_e");
        push_str_chars(&mut id, decimal_string(local_order as u64).as_str());
        e.element_id = string_from_chars(id.as_slice());
        e.bbox = Some(BBox { x0: 0, y0, x1: 1000, y1 });
        current.push(e);
        current_lines = current_lines + needed;
        global_order = global_order + 1;
        k = k + 1;
        proof {
            assert(cs.skip(k as int) =~= cs.skip(k - 1).drop_first());
        }
    }
    proof {
        assert(needs.take(k as int) =~= needs);
        lemma_fill_shape(needs, limit);
    }
    let last = current;
    pages.push(build_docx_page(page_number, last));
    pages
}

proof fn lemma_fits_prefix(needs: Seq<nat>, limit: nat, i: int)
    requires
        0 <= i <= needs.len(),
        fill_fits(needs, limit),
    ensures
        fill_fits(needs.take(i), limit),
    decreases needs.len() - i,
{
    if i < needs.len() {
        assert(needs.take(needs.len() as int) =~= needs);
        lemma_fits_prefix(needs.drop_last(), limit, i);
        assert(needs.drop_last().take(i) =~= needs.take(i));
    } else {
        assert(needs.take(i) =~= needs);
    }
}

/// What a paragraph's style says: whether it marks a heading, whether it is
/// monospace, and the heading level it gives.
#[derive(Clone, Copy, Debug)]
pub struct ParagraphStyle {
    pub heading: bool,
    pub monospace: bool,
    pub level: usize,
}

/// The text starts with an uppercase letter.
pub open spec fn starts_upper(text: Seq<char>) -> bool {
    text.len() > 0 && unicode_uppercase(text[0])
}

/// A paragraph is a heading, where headings are extracted, when its style marks
/// one or when it is short (under 100 bytes) and starts with an uppercase letter.
pub open spec fn paragraph_is_heading(text: Seq<char>, style: ParagraphStyle, allow: bool) -> bool {
    allow && (style.heading || (utf8_len(text) < 100 && starts_upper(text)))
}

/// `c` is the paragraph `text` (normalized again as `normalized`) with style
/// `style`, the `index`-th paragraph: code for a monospace style, else a heading
/// (see [`paragraph_is_heading`]) of the style's level, else a plain paragraph.
pub open spec fn paragraph_candidate(
    c: CandidateElement,
    text: Seq<char>,
    normalized: Seq<char>,
    style: ParagraphStyle,
    allow: bool,
    index: nat,
) -> bool {
    let e = c.element;
    &&& e.element_id@ == "docx_paragraph_"@ + decimal(index)
    &&& if style.monospace {
        &&& e.element_type == ElementType::Code
        &&& e.tag matches Some(t) && t@ == "code"@
        &&& e.role matches Some(t) && t@ == "code_block"@
        &&& e.markdown matches Some(t) && t@ == "```\n"@ + text + "\n```"@
    } else if paragraph_is_heading(text, style, allow) {
        &&& e.element_type == ElementType::Heading
        &&& e.tag matches Some(t) && t@ == "h"@ + decimal(style.level as nat)
        &&& e.role matches Some(t) && t@ == "section_title"@
        &&& e.markdown matches Some(t) && t@ == Seq::new(style.level as nat, |_i: int| '#') + " "@ + text
    } else {
        &&& e.element_type == ElementType::Paragraph
        &&& e.tag matches Some(t) && t@ == "p"@
        &&& e.role matches Some(t) && t@ == "paragraph"@
        &&& e.markdown matches Some(t) && t@ == text
    }
    &&& e.reading_order.is_none() && e.global_order.is_none() && e.bbox.is_none()
    &&& e.text matches Some(t) && t@ == text
    &&& e.html.is_none()
    &&& e.normalized_text matches Some(t) && t@ == normalized
    &&& e.raw matches Some(t) && t@ == text
    &&& e.items@.len() == 0
    &&& !e.exclude_from_chunks
    &&& e.table_linearized@.len() == 0
    &&& e.provenance.method@ == "native"@
    &&& e.provenance.tool@ == "docx_ooxml_parser"@
    &&& e.provenance.stage@ == "docx_paragraph_extraction"@
    &&& e.provenance.source_kind matches Some(t) && t@ == "xml"@
    &&& e.provenance.source_value matches Some(t) && t@ == "word/document.xml"@
    &&& e.confidence_permille == 990
    &&& e.warnings@.len() == 0
    &&& e.extra@.len() == 0
    &&& c.estimated_lines == lines_needed(text)
}

fn repeat_hash(n: usize) -> (r: Vec<char>)
    ensures
        r@ == Seq::new(n as nat, |_i: int| '#'),
{
    let mut v: Vec<char> = Vec::new();
    let mut i: usize = 0;
    while i < n
        invariant
            i <= n,
            v@ == Seq::new(i as nat, |_i: int| '#'),
        decreases n - i,
    {
        v.push('#');
        i = i + 1;
        assert(v@ =~= Seq::new(i as nat, |_i: int| '#'));
    }
    v
}

/// The candidate of a paragraph (see [`paragraph_candidate`]); none for a blank one.
pub fn make_paragraph_element(
    text: &str,
    normalized: &str,
    style: ParagraphStyle,
    allow_headings: bool,
    index: usize,
) -> (r: Option<CandidateElement>)
    ensures
        is_blank(text@) ==> r.is_none(),
        !is_blank(text@) ==> r.is_some() && paragraph_candidate(r.unwrap(), text@, normalized@, style, allow_headings, index as nat),
{
    if str_is_blank(text) {
        return None;
    }
    let chars = chars_of(text);
    let upper = chars.len() > 0 && is_uppercase(chars[0]);
    let heading = allow_headings && (style.heading || (text.len() < 100 && upper));
    let (element_type, tag, role, markdown) = if style.monospace {
        let mut m: Vec<char> = Vec::new();
        push_str_chars(&mut m, "```\n");
        push_str_chars(&mut m, text);
        push_str_chars(&mut m, "\n```");
        (ElementType::Code, to_owned_string("code"), to_owned_string("code_block"), string_from_chars(m.as_slice()))
    } else if heading {
        let mut t: Vec<char> = Vec::new();
        push_str_chars(&mut t, "h");
        push_str_chars(&mut t, decimal_string(style.level as u64).as_str());
        let mut m = repeat_hash(style.level);
        push_str_chars(&mut m, " ");
        push_str_chars(&mut m, text);
        (ElementType::Heading, string_from_chars(t.as_slice()), to_owned_string("section_title"), string_from_chars(m.as_slice()))
    } else {
        (ElementType::Paragraph, to_owned_string("p"), to_owned_string("paragraph"), to_owned_string(text))
    };
    let mut id: Vec<char> = Vec::new();
    push_str_chars(&mut id, "docx_paragraph_");
    push_str_chars(&mut id, decimal_string(index as u64).as_str());
    Some(CandidateElement {
        element: Element {
            element_id: string_from_chars(id.as_slice()),
            element_type,
            tag: Some(tag),
            role: Some(role),
            reading_order: None,
            global_order: None,
            bbox: None,
            text: Some(to_owned_string(text)),
            markdown: Some(markdown),
            html: None,
            normalized_text: Some(to_owned_string(normalized)),
            raw: Some(to_owned_string(text)),
            items: Vec::new(),
            exclude_from_chunks: false,
            table_linearized: Vec::new(),
            provenance: provenance("docx_ooxml_parser", "docx_paragraph_extraction", "xml", "word/document.xml"),
            confidence_permille: crate::extractors::default_confidence(),
            warnings: Vec::new(),
            extra: Vec::new(),
        },
        estimated_lines: estimate_lines(text),
    })
}

/// What became of an image that a paragraph embeds.
pub enum DocxImage {
    /// It is stored as this asset.
    Stored(String),
    /// Its relationship is missing or external, or its media part is not there.
    Skipped,
    /// Reading or storing it failed: the relationship id and the reason.
    Failed(String, String),
}

/// A paragraph of the document body as the reader made it out: its normalized
/// text and that text normalized again, whether it is a numbered list item (and
/// of an ordered list), its style, its first OMML formula (markup and text) and
/// its images.
pub struct DocxParagraph {
    pub text: String,
    pub normalized_text: String,
    pub list: Option<bool>,
    pub style: ParagraphStyle,
    pub formula: Option<(String, String)>,
    pub images: Vec<DocxImage>,
}

/// A block of the document body, in order.
pub enum DocxBlock {
    /// A table, by its markup.
    Table(String),
    Paragraph(DocxParagraph),
}

/// Reading the blocks so far: the candidates made, as `(kind, block, number,
/// type or asset, items)` with kind 0 for a list, 1 a table, 2 a paragraph, 3 a
/// formula and 4 an image; the list being gathered; how many lists, paragraphs,
/// tables and images were made; and the messages of images that failed.
pub struct DocxFold {
    pub cands: Seq<(nat, nat, nat, Seq<char>, Seq<Seq<char>>)>,
    pub pending: Option<(Seq<char>, Seq<Seq<char>>)>,
    pub lists: nat,
    pub paragraphs: nat,
    pub tables: nat,
    pub images: nat,
    pub warnings: Seq<Seq<char>>,
}

/// The list being gathered, if it has items, becomes a candidate; none is pending after.
pub open spec fn flush_fold(st: DocxFold) -> DocxFold {
    match st.pending {
        Some(l) => if l.1.len() > 0 {
            DocxFold { cands: st.cands.push((0nat, 0nat, st.lists, l.0, l.1)), lists: st.lists + 1, pending: None, ..st }
        } else {
            DocxFold { pending: None, ..st }
        },
        None => st,
    }
}

pub open spec fn list_kind(ordered: bool) -> Seq<char> {
    if ordered {
        "ol"@
    } else {
        "ul"@
    }
}

pub open spec fn image_failure_message(rid: Seq<char>, error: Seq<char>) -> Seq<char> {
    "Не удалось извлечь изображение DOCX ("@ + rid + "): "@ + error
}

/// The images of a paragraph: a stored one becomes a candidate, a failed one a warning.
pub open spec fn images_fold(st: DocxFold, imgs: Seq<DocxImage>) -> DocxFold
    decreases imgs.len(),
{
    if imgs.len() == 0 {
        st
    } else {
        let s0 = images_fold(st, imgs.drop_last());
        match imgs.last() {
            DocxImage::Stored(a) => DocxFold {
                cands: s0.cands.push((4nat, 0nat, s0.images, a@, Seq::empty())),
                images: s0.images + 1,
                ..s0
            },
            DocxImage::Skipped => s0,
            DocxImage::Failed(rid, err) => DocxFold { warnings: s0.warnings.push(image_failure_message(rid@, err@)), ..s0 },
        }
    }
}

/// A list item paragraph joins the pending list of its type, or starts a new list.
pub open spec fn list_item_fold(st: DocxFold, lt: Seq<char>, t: Seq<char>) -> DocxFold {
    match st.pending {
        Some(l) => if l.0 == lt {
            DocxFold { pending: Some((l.0, l.1.push(t))), ..st }
        } else {
            DocxFold { pending: Some((lt, seq![t])), ..flush_fold(st) }
        },
        None => DocxFold { pending: Some((lt, seq![t])), ..st },
    }
}

/// One block `b`, the `i`-th: a table ends the pending list and, where tables are
/// extracted and its markup holds rows and cells (see `docx_table_of`), becomes a
/// candidate; a numbered paragraph with text joins a list
/// (where lists are extracted); another paragraph ends the pending list and, with
/// text, becomes a paragraph candidate; then its formula and its images.
pub open spec fn block_fold(st: DocxFold, b: DocxBlock, i: nat, o: DocxOptions) -> DocxFold {
    match b {
        DocxBlock::Table(t) => {
            let f = flush_fold(st);
            if !o.extract_tables {
                f
            } else if crate::extractors::docx_table::docx_table_of(t@).is_some() {
                DocxFold { cands: f.cands.push((1nat, i, f.tables, Seq::empty(), Seq::empty())), tables: f.tables + 1, ..f }
            } else {
                f
            }
        },
        DocxBlock::Paragraph(p) => {
            let t = p.text@;
            let s1 = if o.extract_lists && p.list.is_some() && !is_blank(t) {
                list_item_fold(st, list_kind(p.list.unwrap()), t)
            } else {
                let f = flush_fold(st);
                if !is_blank(t) && o.extract_paragraphs {
                    DocxFold {
                        cands: f.cands.push((2nat, i, f.paragraphs, Seq::empty(), Seq::empty())),
                        paragraphs: f.paragraphs + 1,
                        ..f
                    }
                } else {
                    f
                }
            };
            let s2 = if o.extract_formulas && p.formula.is_some() {
                DocxFold { cands: s1.cands.push((3nat, i, 0nat, Seq::empty(), Seq::empty())), ..s1 }
            } else {
                s1
            };
            if o.extract_images && o.extract_embedded_images {
                images_fold(s2, p.images@)
            } else {
                s2
            }
        },
    }
}

pub open spec fn docx_start() -> DocxFold {
    DocxFold {
        cands: Seq::empty(),
        pending: None,
        lists: 0,
        paragraphs: 0,
        tables: 0,
        images: 0,
        warnings: Seq::empty(),
    }
}

pub open spec fn blocks_fold(blocks: Seq<DocxBlock>, o: DocxOptions) -> DocxFold
    decreases blocks.len(),
{
    if blocks.len() == 0 {
        docx_start()
    } else {
        block_fold(blocks_fold(blocks.drop_last(), o), blocks.last(), (blocks.len() - 1) as nat, o)
    }
}

/// The candidates of the document body: the blocks read in order, and the list
/// still pending at the end.
pub open spec fn docx_candidates_of(blocks: Seq<DocxBlock>, o: DocxOptions) -> DocxFold {
    flush_fold(blocks_fold(blocks, o))
}

/// `c` is the first OMML formula `omml` of a paragraph, with text `text`.
pub open spec fn formula_candidate(c: CandidateElement, omml: Seq<char>, text: Seq<char>) -> bool {
    let e = c.element;
    &&& e.element_id@.len() == 0
    &&& e.element_type == ElementType::Formula
    &&& e.tag matches Some(t) && t@ == "m:oMath"@
    &&& e.role matches Some(t) && t@ == "equation"@
    &&& e.reading_order.is_none() && e.global_order.is_none() && e.bbox.is_none()
    &&& e.text matches Some(t) && t@ == text
    &&& e.markdown matches Some(t) && t@ == text
    &&& e.html.is_none()
    &&& e.normalized_text matches Some(t) && t@ == text
    &&& e.raw matches Some(t) && t@ == omml
    &&& e.items@.len() == 0
    &&& !e.exclude_from_chunks
    &&& e.table_linearized@.len() == 0
    &&& e.provenance.method@ == "native"@
    &&& e.provenance.tool@ == "docx_ooxml_parser"@
    &&& e.provenance.stage@ == "docx_formula_extraction"@
    &&& e.provenance.source_kind matches Some(t) && t@ == "xml"@
    &&& e.provenance.source_value matches Some(t) && t@ == "word/document.xml"@
    &&& e.confidence_permille == 990
    &&& e.warnings@.len() == 0
    &&& e.extra@.len() == 1 && e.extra@[0].0@ == "format"@ && e.extra@[0].1@ == "omml"@
    &&& c.estimated_lines == 2
}

/// `c` is the `index`-th image, stored as `asset`.
pub open spec fn image_candidate(c: CandidateElement, asset: Seq<char>, index: nat) -> bool {
    let e = c.element;
    &&& e.element_id@ == "docx_image_"@ + decimal(index)
    &&& e.element_type == ElementType::Image
    &&& e.tag.is_some() && e.tag.unwrap()@ == "w:drawing"@
    &&& e.role.is_some() && e.role.unwrap()@ == "embedded_image"@
    &&& e.reading_order.is_none() && e.global_order.is_none() && e.bbox.is_none()
    &&& e.text.is_some() && e.text.unwrap()@.len() == 0
    &&& e.markdown.is_some() && e.markdown.unwrap()@ == "![DOCX image]"@
    &&& e.html.is_none()
    &&& e.normalized_text.is_some() && e.normalized_text.unwrap()@.len() == 0
    &&& e.raw.is_none()
    &&& e.provenance.method@ == "native"@
    &&& e.provenance.tool@ == "docx_ooxml_parser"@
    &&& e.provenance.stage@ == "docx_media_extraction"@
    &&& e.provenance.source_kind.is_none() && e.provenance.source_value.is_none()
    &&& e.confidence_permille == 990
    &&& e.warnings@.len() == 0
    &&& e.extra@.len() == 1 && e.extra@[0].0@ == "asset_id"@ && e.extra@[0].1@ == asset
    &&& c.estimated_lines == 6
}

/// `c` is the candidate that `d` describes, the blocks being `blocks`.
pub open spec fn docx_candidate(
    c: CandidateElement,
    d: (nat, nat, nat, Seq<char>, Seq<Seq<char>>),
    blocks: Seq<DocxBlock>,
    o: DocxOptions,
) -> bool {
    if d.0 == 0 {
        list_candidate(c, d.3, d.4, d.2)
    } else if d.0 == 1 {
        match blocks[d.1 as int] {
            DocxBlock::Table(x) => match crate::extractors::docx_table::docx_table_of(x@) {
                Some(t) => crate::extractors::docx_table::docx_table_element(c, x@, d.2 + 1, t),
                None => false,
            },
            _ => false,
        }
    } else if d.0 == 2 {
        match blocks[d.1 as int] {
            DocxBlock::Paragraph(p) => paragraph_candidate(c, p.text@, p.normalized_text@, p.style, o.extract_headings, d.2 + 1),
            _ => false,
        }
    } else if d.0 == 3 {
        match blocks[d.1 as int] {
            DocxBlock::Paragraph(p) => match p.formula {
                Some(f) => formula_candidate(c, f.0@, f.1@),
                None => false,
            },
            _ => false,
        }
    } else {
        image_candidate(c, d.3, d.2 + 1)
    }
}

pub open spec fn pending_view(p: Option<PendingList>) -> Option<(Seq<char>, Seq<Seq<char>>)> {
    match p {
        Some(l) => Some((l.list_type@, views(l.items@))),
        None => None,
    }
}

/// The images of the paragraphs of the blocks.
pub open spec fn block_images(blocks: Seq<DocxBlock>) -> nat
    decreases blocks.len(),
{
    if blocks.len() == 0 {
        0
    } else {
        block_images(blocks.drop_last()) + match blocks.last() {
            DocxBlock::Paragraph(p) => p.images@.len(),
            _ => 0,
        }
    }
}

/// The candidates and warnings of the document body read so far.
pub struct DocxState {
    pub cands: Vec<CandidateElement>,
    pub pending: Option<PendingList>,
    pub lists: usize,
    pub paragraphs: usize,
    pub tables: usize,
    pub images: usize,
    pub warnings: Vec<Diagnostic>,
}

pub open spec fn state_matches(s: DocxState, f: DocxFold, all: Seq<DocxBlock>, o: DocxOptions) -> bool {
    &&& s.cands@.len() == f.cands.len()
    &&& forall|q: int| 0 <= q < f.cands.len() ==> docx_candidate(#[trigger] s.cands@[q], f.cands[q], all, o)
    &&& pending_view(s.pending) == f.pending
    &&& s.lists as nat == f.lists
    &&& s.paragraphs as nat == f.paragraphs
    &&& s.tables as nat == f.tables
    &&& s.images as nat == f.images
    &&& s.warnings@.len() == f.warnings.len()
    &&& forall|j: int|
        0 <= j < f.warnings.len() ==> document_notice(#[trigger] s.warnings@[j], "warning"@, "DOCX_IMAGE_EXTRACTION_FAILED"@, f.warnings[j])
}

fn flush_state(st: &mut DocxState, Ghost(f): Ghost<DocxFold>, Ghost(all): Ghost<Seq<DocxBlock>>, Ghost(o): Ghost<DocxOptions>)
    requires
        state_matches(*old(st), f, all, o),
        old(st).lists < usize::MAX,
    ensures
        state_matches(*final(st), flush_fold(f), all, o),
{
    let ghost c0 = st.cands@;
    let ghost p0 = st.pending;
    flush_pending_list(&mut st.pending, &mut st.cands, &mut st.lists);
    proof {
        let g = flush_fold(f);
        assert forall|q: int| 0 <= q < g.cands.len() implies docx_candidate(#[trigger] st.cands@[q], g.cands[q], all, o) by {
            if q < c0.len() && st.cands@.len() > c0.len() {
                assert(st.cands@[q] == st.cands@.drop_last()[q]);
            }
        }
    }
}

proof fn lemma_images_fold(st: DocxFold, imgs: Seq<DocxImage>)
    ensures
        images_fold(st, imgs).lists == st.lists,
        images_fold(st, imgs).paragraphs == st.paragraphs,
        images_fold(st, imgs).tables == st.tables,
        images_fold(st, imgs).pending == st.pending,
        images_fold(st, imgs).images <= st.images + imgs.len(),
    decreases imgs.len(),
{
    if imgs.len() > 0 {
        lemma_images_fold(st, imgs.drop_last());
    }
}

spec fn pending_count(f: DocxFold) -> int {
    f.lists + if f.pending.is_some() { 1int } else { 0int }
}

proof fn lemma_block_fold_counts(f: DocxFold, b: DocxBlock, i: nat, o: DocxOptions)
    ensures
        pending_count(block_fold(f, b, i, o)) <= pending_count(f) + 1,
        block_fold(f, b, i, o).paragraphs <= f.paragraphs + 1,
        block_fold(f, b, i, o).tables <= f.tables + 1,
        block_fold(f, b, i, o).images <= f.images + match b {
            DocxBlock::Paragraph(p) => p.images@.len(),
            _ => 0,
        },
{
    match b {
        DocxBlock::Table(t) => {},
        DocxBlock::Paragraph(p) => {
            let t = p.text@;
            let s1 = if o.extract_lists && p.list.is_some() && !is_blank(t) {
                list_item_fold(f, list_kind(p.list.unwrap()), t)
            } else {
                let g = flush_fold(f);
                if !is_blank(t) && o.extract_paragraphs {
                    DocxFold {
                        cands: g.cands.push((2nat, i, g.paragraphs, Seq::empty(), Seq::empty())),
                        paragraphs: g.paragraphs + 1,
                        ..g
                    }
                } else {
                    g
                }
            };
            let s2 = if o.extract_formulas && p.formula.is_some() {
                DocxFold { cands: s1.cands.push((3nat, i, 0nat, Seq::empty(), Seq::empty())), ..s1 }
            } else {
                s1
            };
            lemma_images_fold(s2, p.images@);
        },
    }
}

proof fn lemma_block_images_prefix(blocks: Seq<DocxBlock>, i: int)
    requires
        0 <= i <= blocks.len(),
    ensures
        block_images(blocks.take(i)) <= block_images(blocks),
    decreases blocks.len() - i,
{
    if i < blocks.len() {
        lemma_block_images_prefix(blocks.drop_last(), i);
        assert(blocks.drop_last().take(i) =~= blocks.take(i));
    } else {
        assert(blocks.take(i) =~= blocks);
    }
}

fn formula_candidate_exec(omml: String, text: String) -> (c: CandidateElement)
    ensures
        formula_candidate(c, omml@, text@),
{
    let mut extra: Vec<(String, String)> = Vec::new();
    extra.push((to_owned_string("format"), to_owned_string("omml")));
    CandidateElement {
        element: Element {
            element_id: String::new(),
            element_type: ElementType::Formula,
            tag: Some(to_owned_string("m:oMath")),
            role: Some(to_owned_string("equation")),
            reading_order: None,
            global_order: None,
            bbox: None,
            text: Some(text.clone()),
            markdown: Some(text.clone()),
            html: None,
            normalized_text: Some(text),
            raw: Some(omml),
            items: Vec::new(),
            exclude_from_chunks: false,
            table_linearized: Vec::new(),
            provenance: provenance("docx_ooxml_parser", "docx_formula_extraction", "xml", "word/document.xml"),
            confidence_permille: crate::extractors::default_confidence(),
            warnings: Vec::new(),
            extra,
        },
        estimated_lines: 2,
    }
}

fn image_failure_exec(rid: &String, error: &String) -> (d: Diagnostic)
    ensures
        document_notice(d, "warning"@, "DOCX_IMAGE_EXTRACTION_FAILED"@, image_failure_message(rid@, error@)),
{
    let mut v: Vec<char> = Vec::new();
    push_str_chars(&mut v, "Не удалось извлечь изображение DOCX (");
    push_str_chars(&mut v, rid.as_str());
    push_str_chars(&mut v, "): ");
    push_str_chars(&mut v, error.as_str());
    diagnostic("DOCX_IMAGE_EXTRACTION_FAILED", "warning", "document", string_from_chars(v.as_slice()).as_str())
}

fn table_block(
    st: &mut DocxState,
    t: String,
    i: usize,
    options: &DocxOptions,
    Ghost(f): Ghost<DocxFold>,
    Ghost(all): Ghost<Seq<DocxBlock>>,
)
    requires
        state_matches(*old(st), f, all, *options),
        0 <= i < all.len(),
        all[i as int] == DocxBlock::Table(t),
        t@.len() + 2 < usize::MAX,
        old(st).lists < usize::MAX,
        old(st).tables < usize::MAX,
    ensures
        state_matches(*final(st), block_fold(f, all[i as int], i as nat, *options), all, *options),
{
    flush_state(st, Ghost(f), Ghost(all), Ghost(*options));
    let ghost g = flush_fold(f);
    if options.extract_tables {
        match crate::extractors::docx_table::make_table_element(t.as_str(), st.tables + 1) {
            Some(table) => {
                let ghost c0 = st.cands@;
                st.cands.push(table.candidate);
                st.tables = st.tables + 1;
                proof {
                    let h = block_fold(f, all[i as int], i as nat, *options);
                    assert forall|q: int| 0 <= q < h.cands.len() implies docx_candidate(#[trigger] st.cands@[q], h.cands[q], all, *options) by {
                        if q < c0.len() {
                            assert(st.cands@[q] == c0[q]);
                            assert(h.cands[q] == g.cands[q]);
                        }
                    }
                }
            },
            None => {},
        }
    }
}

fn paragraph_block(
    st: &mut DocxState,
    p: DocxParagraph,
    i: usize,
    options: &DocxOptions,
    Ghost(f): Ghost<DocxFold>,
    Ghost(all): Ghost<Seq<DocxBlock>>,
)
    requires
        state_matches(*old(st), f, all, *options),
        0 <= i < all.len(),
        all[i as int] == DocxBlock::Paragraph(p),
        old(st).lists + 1 < usize::MAX,
        old(st).paragraphs < usize::MAX,
        old(st).images + p.images@.len() < usize::MAX,
    ensures
        state_matches(*final(st), block_fold(f, all[i as int], i as nat, *options), all, *options),
{
    let ghost p0 = p;
    let o = options;
    let DocxParagraph { text, normalized_text, list, style, formula, images } = p;
    let blank = str_is_blank(text.as_str());
    let ghost s1 = if o.extract_lists && p0.list.is_some() && !is_blank(p0.text@) {
        list_item_fold(f, list_kind(p0.list.unwrap()), p0.text@)
    } else {
        let g = flush_fold(f);
        if !is_blank(p0.text@) && o.extract_paragraphs {
            DocxFold { cands: g.cands.push((2nat, i as nat, g.paragraphs, Seq::empty(), Seq::empty())), paragraphs: g.paragraphs + 1, ..g }
        } else {
            g
        }
    };
    if o.extract_lists && list.is_some() && !blank {
        let ordered = match list {
            Some(b) => b,
            None => false,
        };
        let lt: &str = if ordered { "ol" } else { "ul" };
        proof {
            reveal_strlit("ol");
            reveal_strlit("ul");
        }
        assert(lt@ == list_kind(ordered));
        let cur = st.pending.take();
        match cur {
            Some(mut l) => {
                if crate::json::str_eq(&l.list_type, lt) {
                    let ghost iv = views(l.items@);
                    l.items.push(text.clone());
                    assert(views(l.items@) =~= iv.push(text@));
                    st.pending = Some(l);
                } else {
                    st.pending = Some(l);
                    flush_state(st, Ghost(f), Ghost(all), Ghost(*o));
                    let mut items: Vec<String> = Vec::new();
                    items.push(text.clone());
                    assert(views(items@) =~= seq![text@]);
                    st.pending = Some(PendingList { list_type: to_owned_string(lt), items });
                }
            },
            None => {
                let mut items: Vec<String> = Vec::new();
                items.push(text.clone());
                assert(views(items@) =~= seq![text@]);
                st.pending = Some(PendingList { list_type: to_owned_string(lt), items });
            },
        }
    } else {
        flush_state(st, Ghost(f), Ghost(all), Ghost(*o));
        if !blank && o.extract_paragraphs {
            let ghost c0 = st.cands@;
            let ghost g = flush_fold(f);
            let c = make_paragraph_element(text.as_str(), normalized_text.as_str(), style, o.extract_headings, st.paragraphs + 1);
            match c {
                Some(c) => {
                    st.cands.push(c);
                    st.paragraphs = st.paragraphs + 1;
                },
                None => {},
            }
            proof {
                assert forall|q: int| 0 <= q < s1.cands.len() implies docx_candidate(#[trigger] st.cands@[q], s1.cands[q], all, *o) by {
                    if q < c0.len() {
                        assert(st.cands@[q] == c0[q]);
                        assert(s1.cands[q] == g.cands[q]);
                    }
                }
            }
        }
    }
    assert(state_matches(*st, s1, all, *o));
    let ghost s2 = if o.extract_formulas && p0.formula.is_some() {
        DocxFold { cands: s1.cands.push((3nat, i as nat, 0nat, Seq::empty(), Seq::empty())), ..s1 }
    } else {
        s1
    };
    if o.extract_formulas {
        match formula {
            Some(fm) => {
                let (omml, ftext) = fm;
                let ghost c0 = st.cands@;
                st.cands.push(formula_candidate_exec(omml, ftext));
                proof {
                    assert forall|q: int| 0 <= q < s2.cands.len() implies docx_candidate(#[trigger] st.cands@[q], s2.cands[q], all, *o) by {
                        if q < c0.len() {
                            assert(st.cands@[q] == c0[q]);
                        }
                    }
                }
            },
            None => {},
        }
    }
    assert(state_matches(*st, s2, all, *o));
    if o.extract_images && o.extract_embedded_images {
        let ghost iv = images@;
        let mut rest = images;
        let mut j: usize = 0;
        assert(iv.len() == rest.len());
        assert(iv.take(0) =~= Seq::<DocxImage>::empty());
        while rest.len() > 0
            invariant
                j + rest@.len() == iv.len(),
                iv.len() <= usize::MAX,
                rest@ == iv.skip(j as int),
                iv == p0.images@,
                state_matches(*st, images_fold(s2, iv.take(j as int)), all, *o),
                st.images + (iv.len() - j) < usize::MAX,
            decreases rest@.len(),
        {
            proof {
                assert(iv.take(j + 1).drop_last() =~= iv.take(j as int));
                assert(iv.take(j + 1).last() == iv[j as int]);
                assert(iv.skip(j as int)[0] == iv[j as int]);
            }
            let ghost h0 = images_fold(s2, iv.take(j as int));
            let img = rest.remove(0);
            match img {
                DocxImage::Stored(asset_id) => {
                    let ghost c0 = st.cands@;
                    let e = make_image_element(st.images + 1, asset_id.as_str());
                    st.cands.push(CandidateElement { element: e, estimated_lines: 6 });
                    st.images = st.images + 1;
                    proof {
                        let h1 = images_fold(s2, iv.take(j + 1));
                        assert forall|q: int| 0 <= q < h1.cands.len() implies docx_candidate(#[trigger] st.cands@[q], h1.cands[q], all, *o) by {
                            if q < c0.len() {
                                assert(st.cands@[q] == c0[q]);
                                assert(h1.cands[q] == h0.cands[q]);
                            }
                        }
                    }
                },
                DocxImage::Skipped => {},
                DocxImage::Failed(rid, err) => {
                    let ghost w0 = st.warnings@;
                    st.warnings.push(image_failure_exec(&rid, &err));
                    proof {
                        let h1 = images_fold(s2, iv.take(j + 1));
                        assert forall|q: int| 0 <= q < h1.warnings.len() implies document_notice(#[trigger] st.warnings@[q], "warning"@, "DOCX_IMAGE_EXTRACTION_FAILED"@, h1.warnings[q]) by {
                            if q < w0.len() {
                                assert(st.warnings@[q] == w0[q]);
                            }
                        }
                    }
                },
            }
            j = j + 1;
            proof {
                assert(iv.skip(j as int) =~= iv.skip(j - 1).drop_first());
            }
        }
        assert(iv.take(j as int) =~= iv);
    }
}

/// The candidates of the document body and the warnings of images that failed.
pub struct DocxCandidates {
    pub candidates: Vec<CandidateElement>,
    pub warnings: Vec<Diagnostic>,
}

/// The blocks and their images are fewer than the largest `usize`, and so is the
/// markup of each table, with room to spare.
pub open spec fn docx_blocks_fit(blocks: Seq<DocxBlock>) -> bool {
    &&& blocks.len() + block_images(blocks) + 2 < usize::MAX
    &&& forall|i: int| 0 <= i < blocks.len() ==> (#[trigger] blocks[i] matches DocxBlock::Table(x) ==> x@.len() + 2 < usize::MAX)
}

/// The candidates of the document body, block by block (see [`block_fold`]): lists
/// gathered from numbered paragraphs of one type until another block ends them,
/// tables, paragraphs, formulas and images numbered in their kind; a warning for
/// each image that could not be read or stored.
#[verifier::spinoff_prover]
#[verifier::rlimit(60)]
pub fn docx_candidates(blocks: Vec<DocxBlock>, options: &DocxOptions) -> (r: DocxCandidates)
    requires
        docx_blocks_fit(blocks@),
    ensures
        ({
            let f = docx_candidates_of(blocks@, *options);
            &&& r.candidates@.len() == f.cands.len()
            &&& forall|q: int| 0 <= q < f.cands.len() ==> docx_candidate(#[trigger] r.candidates@[q], f.cands[q], blocks@, *options)
            &&& r.warnings@.len() == f.warnings.len()
            &&& forall|j: int|
                0 <= j < f.warnings.len() ==> document_notice(#[trigger] r.warnings@[j], "warning"@, "DOCX_IMAGE_EXTRACTION_FAILED"@, f.warnings[j])
        }),
{
    let ghost all = blocks@;
    assert(all.len() == blocks.len());
    let mut st = DocxState {
        cands: Vec::new(),
        pending: None,
        lists: 0,
        paragraphs: 0,
        tables: 0,
        images: 0,
        warnings: Vec::new(),
    };
    let mut rest = blocks;
    let mut k: usize = 0;
    assert(all.take(0) =~= Seq::<DocxBlock>::empty());
    proof {
        lemma_block_images_prefix(all, 0);
    }
    while rest.len() > 0
        invariant
            k + rest@.len() == all.len(),
            rest@ == all.skip(k as int),
            docx_blocks_fit(all),
            state_matches(st, blocks_fold(all.take(k as int), *options), all, *options),
            pending_count(blocks_fold(all.take(k as int), *options)) <= k,
            blocks_fold(all.take(k as int), *options).paragraphs <= k,
            blocks_fold(all.take(k as int), *options).tables <= k,
            blocks_fold(all.take(k as int), *options).images <= block_images(all.take(k as int)),
        decreases rest@.len(),
    {
        let ghost f = blocks_fold(all.take(k as int), *options);
        proof {
            assert(all.take(k + 1).drop_last() =~= all.take(k as int));
            assert(all.take(k + 1).last() == all[k as int]);
            assert(all.skip(k as int)[0] == all[k as int]);
            lemma_block_images_prefix(all, k + 1);
            lemma_block_fold_counts(f, all[k as int], k as nat, *options);
            assert(pending_view(st.pending).is_some() == st.pending.is_some());
        }
        let b = rest.remove(0);
        match b {
            DocxBlock::Table(t) => {
                table_block(&mut st, t, k, options, Ghost(f), Ghost(all));
            },
            DocxBlock::Paragraph(p) => {
                proof {
                    let s2 = f;
                    lemma_images_fold(s2, p.images@);
                }
                paragraph_block(&mut st, p, k, options, Ghost(f), Ghost(all));
            },
        }
        proof {
            let g = block_fold(f, all[k as int], k as nat, *options);
            assert(g == blocks_fold(all.take(k + 1), *options));
        }
        k = k + 1;
        proof {
            assert(all.skip(k as int) =~= all.skip(k - 1).drop_first());
        }
    }
    assert(all.take(k as int) =~= all);
    flush_state(&mut st, Ghost(blocks_fold(all, *options)), Ghost(all), Ghost(*options));
    DocxCandidates { candidates: st.cands, warnings: st.warnings }
}

} // verus!
