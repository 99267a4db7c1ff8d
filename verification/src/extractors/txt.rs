//! Plain text: each non-blank line becomes an element, read as a heading, a list
//! item, code or a paragraph.

use vstd::prelude::*;
use crate::chunking::utf8_len;
use crate::classifier::FileClassification;
use crate::extractors::{
    base_document_model, count_elements, count_pages, lemma_count_elements_grows, provenance,
    skeleton_model, stage, stats_for, update_stats, word_count, zero_count, StatsCount,
};
use crate::model::{BBox, ContentMode, DocumentFormat, DocumentModel, Element, ElementType, Page, PageType, StageStatus};
use crate::text::{decimal, decimal_string, join, is_ws, views};
use crate::unicode::{to_lowercase, unicode_lower};
use crate::text::{
    chars_of, is_ascii_digit, push_str_chars, seq_contains, split_chars, split_on, starts_with,
    string_from_chars, trim, trim_chars, trim_end, trim_end_chars, trim_start,
};
use crate::unicode::{
    is_alphabetic, is_lowercase, is_uppercase, unicode_alphabetic, unicode_lowercase,
    unicode_uppercase,
};

verus! {

/// The extractor of plain text files.
pub struct TxtExtractor;

impl TxtExtractor {
    pub fn name(&self) -> (s: &'static str)
        ensures
            s@ == "txt_extractor"@,
    {
        "txt_extractor"
    }
}

/// Line endings made uniform: `\r\n` and a lone `\r` become `\n`.
pub open spec fn normalize_newlines(s: Seq<char>) -> Seq<char>
    decreases s.len(),
{
    if s.len() == 0 {
        Seq::empty()
    } else if s[0] == '\r' && s.len() > 1 && s[1] == '\n' {
        seq!['\n'] + normalize_newlines(s.skip(2))
    } else if s[0] == '\r' {
        seq!['\n'] + normalize_newlines(s.drop_first())
    } else {
        seq![s[0]] + normalize_newlines(s.drop_first())
    }
}

pub fn normalize_newlines_chars(s: &[char]) -> (r: Vec<char>)
    ensures
        r@ == normalize_newlines(s@),
{
    let mut out: Vec<char> = Vec::new();
    let mut i: usize = 0;
    assert(s@.skip(0) =~= s@);
    while i < s.len()
        invariant
            i <= s@.len(),
            out@ + normalize_newlines(s@.skip(i as int)) == normalize_newlines(s@),
        decreases s@.len() - i,
    {
        let rest = Ghost(s@.skip(i as int));
        let ghost before = out@;
        if s[i] == '\r' && i + 1 < s.len() && s[i + 1] == '\n' {
            out.push('\n');
            proof {
                assert(rest@.skip(2) =~= s@.skip(i + 2));
                assert(out@ + normalize_newlines(s@.skip(i + 2)) =~= before + (seq!['\n']
                    + normalize_newlines(rest@.skip(2))));
            }
            i = i + 2;
        } else {
            out.push(if s[i] == '\r' { '\n' } else { s[i] });
            proof {
                assert(rest@.drop_first() =~= s@.skip(i + 1));
                assert(out@ + normalize_newlines(s@.skip(i + 1)) =~= before + (seq![out@.last()]
                    + normalize_newlines(rest@.drop_first())));
            }
            i = i + 1;
        }
    }
    assert(s@.skip(i as int) =~= Seq::<char>::empty());
    assert(out@ + normalize_newlines(s@.skip(i as int)) =~= out@);
    out
}

/// std's `str::lines`: the pieces between `\n`s, without a `\r` before the `\n`,
/// and without an empty piece after a final `\n`.
pub open spec fn text_lines(s: Seq<char>) -> Seq<Seq<char>> {
    let p = split_on(s, '\n');
    let q = if p.last().len() == 0 {
        p.drop_last()
    } else {
        p
    };
    Seq::new(
        q.len(),
        |i: int|
            if i < p.len() - 1 && q[i].len() > 0 && q[i].last() == '\r' {
                q[i].drop_last()
            } else {
                q[i]
            },
    )
}

pub fn lines_of(s: &[char]) -> (r: Vec<Vec<char>>)
    ensures
        r@.len() == text_lines(s@).len(),
        forall|k: int| 0 <= k < r@.len() ==> #[trigger] r@[k]@ == text_lines(s@)[k],
{
    let pieces = split_chars(s, '\n');
    proof {
        crate::text::lemma_split_on_nonempty(s@, '\n');
    }
    let n = pieces.len();
    let count = if pieces[n - 1].len() == 0 {
        n - 1
    } else {
        n
    };
    let mut out: Vec<Vec<char>> = Vec::new();
    let mut i: usize = 0;
    while i < count
        invariant
            i <= count,
            count <= n,
            n == pieces@.len(),
            n == split_on(s@, '\n').len(),
            count == text_lines(s@).len(),
            forall|k: int| 0 <= k < n ==> #[trigger] pieces@[k]@ == split_on(s@, '\n')[k],
            out@.len() == i,
            forall|k: int| 0 <= k < i ==> #[trigger] out@[k]@ == text_lines(s@)[k],
        decreases count - i,
    {
        let piece = &pieces[i];
        let mut line: Vec<char> = Vec::new();
        let m = piece.len();
        let keep = if i + 1 < n && m > 0 && piece[m - 1] == '\r' {
            m - 1
        } else {
            m
        };
        let mut j: usize = 0;
        while j < keep
            invariant
                j <= keep,
                keep <= piece@.len(),
                line@ == piece@.take(j as int),
            decreases keep - j,
        {
            line.push(piece[j]);
            j = j + 1;
            assert(line@ =~= piece@.take(j as int));
        }
        proof {
            if keep < m {
                assert(line@ =~= piece@.drop_last());
            } else {
                assert(line@ =~= piece@);
            }
        }
        out.push(line);
        i = i + 1;
    }
    out
}

/// A line that reads as a heading: it starts with `#`, or (trimmed, at most 80
/// bytes) it has letters and all of them are upper case.
pub open spec fn heading_like(line: Seq<char>) -> bool {
    let t = trim(line);
    if t.len() > 0 && t[0] == '#' {
        true
    } else if t.len() == 0 || utf8_len(t) > 80 {
        false
    } else {
        (exists|i: int| 0 <= i < t.len() && unicode_alphabetic(#[trigger] t[i])) && (exists|i: int|
            0 <= i < t.len() && unicode_alphabetic(#[trigger] t[i]) && unicode_uppercase(t[i]))
            && !(exists|i: int|
            0 <= i < t.len() && unicode_alphabetic(#[trigger] t[i]) && unicode_lowercase(t[i]))
    }
}

pub fn looks_like_heading(line: &str) -> (r: bool)
    ensures
        r == heading_like(line@),
{
    let t = trim_chars(chars_of(line).as_slice());
    if t.len() > 0 && t[0] == '#' {
        return true;
    }
    let ts = string_from_chars(t.as_slice());
    if t.len() == 0 || ts.as_str().len() > 80 {
        return false;
    }
    let mut any_letter = false;
    let mut any_upper = false;
    let mut any_lower = false;
    let mut i: usize = 0;
    while i < t.len()
        invariant
            i <= t@.len(),
            any_letter == exists|k: int| 0 <= k < i && unicode_alphabetic(#[trigger] t@[k]),
            any_upper == exists|k: int|
                0 <= k < i && unicode_alphabetic(#[trigger] t@[k]) && unicode_uppercase(t@[k]),
            any_lower == exists|k: int|
                0 <= k < i && unicode_alphabetic(#[trigger] t@[k]) && unicode_lowercase(t@[k]),
        decreases t@.len() - i,
    {
        let c = t[i];
        if is_alphabetic(c) {
            any_letter = true;
            if is_uppercase(c) {
                any_upper = true;
            }
            if is_lowercase(c) {
                any_lower = true;
            }
        }
        i = i + 1;
    }
    any_letter && any_upper && !any_lower
}

/// The number of ASCII digits a text starts with.
pub open spec fn leading_digits(s: Seq<char>) -> nat
    decreases s.len(),
{
    if s.len() > 0 && is_ascii_digit(s[0]) {
        1 + leading_digits(s.drop_first())
    } else {
        0
    }
}

/// A text that starts like an ordered list item: digits, then `.` or `)`.
pub open spec fn ordered_list_start(s: Seq<char>) -> bool {
    let k = leading_digits(s) as int;
    k > 0 && k < s.len() && (s[k] == '.' || s[k] == ')')
}

proof fn lemma_leading_digits(s: Seq<char>, i: int)
    requires
        0 <= i <= s.len(),
        forall|k: int| 0 <= k < i ==> is_ascii_digit(#[trigger] s[k]),
        i == s.len() || !is_ascii_digit(s[i]),
    ensures
        leading_digits(s) == i,
    decreases i,
{
    if i > 0 {
        let t = s.drop_first();
        assert forall|k: int| 0 <= k < i - 1 implies is_ascii_digit(#[trigger] t[k]) by {
            assert(t[k] == s[k + 1]);
        }
        if i < s.len() {
            assert(t[i - 1] == s[i]);
        }
        lemma_leading_digits(t, i - 1);
    }
}

pub fn starts_with_ordered_list(line: &str) -> (r: bool)
    ensures
        r == ordered_list_start(line@),
{
    let v = chars_of(line);
    let mut i: usize = 0;
    while i < v.len() && '0' <= v[i] && v[i] <= '9'
        invariant
            i <= v@.len(),
            v@ == line@,
            forall|k: int| 0 <= k < i ==> is_ascii_digit(#[trigger] v@[k]),
        decreases v@.len() - i,
    {
        i = i + 1;
    }
    proof {
        lemma_leading_digits(v@, i as int);
    }
    i > 0 && i < v.len() && (v[i] == '.' || v[i] == ')')
}

/// A line that reads as a list item: after leading whitespace, `- `, `* ` or an
/// ordered list start.
pub open spec fn list_item_like(line: Seq<char>) -> bool {
    let t = trim_start(line);
    starts_with(t, "- "@) || starts_with(t, "* "@) || ordered_list_start(t)
}

pub fn looks_like_list_item(line: &str) -> (r: bool)
    ensures
        r == list_item_like(line@),
{
    let v = chars_of(line);
    let t = crate::text::trim_start_chars(v.as_slice());
    let ts = string_from_chars(t.as_slice());
    crate::text::starts_with_chars(t.as_slice(), chars_of("- ").as_slice()) || crate::text::starts_with_chars(
        t.as_slice(),
        chars_of("* ").as_slice(),
    ) || starts_with_ordered_list(ts.as_str())
}

/// A line that reads as code: indented by four spaces, or holding a brace or a
/// semicolon.
pub open spec fn code_like(line: Seq<char>) -> bool {
    starts_with(line, "    "@) || seq_contains(line, "{"@) || seq_contains(line, "}"@) || seq_contains(
        line,
        ";"@,
    )
}

pub fn looks_like_code(line: &str) -> (r: bool)
    ensures
        r == code_like(line@),
{
    crate::text::str_starts_with(line, "    ") || crate::text::str_contains(line, "{")
        || crate::text::str_contains(line, "}") || crate::text::str_contains(line, ";")
}

/// A character as HTML text: `&`, `<` and `>` become entities.
pub open spec fn escape_char(c: char) -> Seq<char> {
    if c == '&' {
        "&amp;"@
    } else if c == '<' {
        "&lt;"@
    } else if c == '>' {
        "&gt;"@
    } else {
        seq![c]
    }
}

pub open spec fn escape_html(s: Seq<char>) -> Seq<char>
    decreases s.len(),
{
    if s.len() == 0 {
        Seq::empty()
    } else {
        escape_html(s.drop_last()) + escape_char(s.last())
    }
}

pub fn html_escape(s: &str) -> (r: String)
    ensures
        r@ == escape_html(s@),
{
    let v = chars_of(s);
    let mut out: Vec<char> = Vec::new();
    let mut i: usize = 0;
    while i < v.len()
        invariant
            i <= v@.len(),
            v@ == s@,
            out@ == escape_html(v@.take(i as int)),
        decreases v@.len() - i,
    {
        proof {
            assert(v@.take(i + 1).drop_last() =~= v@.take(i as int));
        }
        let c = v[i];
        if c == '&' {
            push_str_chars(&mut out, "&amp;");
        } else if c == '<' {
            push_str_chars(&mut out, "&lt;");
        } else if c == '>' {
            push_str_chars(&mut out, "&gt;");
        } else {
            out.push(c);
            assert(out@ =~= escape_html(v@.take(i as int)) + seq![c]);
        }
        i = i + 1;
    }
    assert(v@.take(i as int) =~= v@);
    string_from_chars(out.as_slice())
}

/// Escaped text holds no `<` or `>` of its own: every one it had became an entity.
pub proof fn law_escaped_has_no_angle_brackets(s: Seq<char>)
    ensures
        forall|i: int| 0 <= i < escape_html(s).len() ==> escape_html(s)[i] != '<' && escape_html(s)[i] != '>',
    decreases s.len(),
{
    reveal_strlit("&amp;");
    reveal_strlit("&lt;");
    reveal_strlit("&gt;");
    if s.len() > 0 {
        law_escaped_has_no_angle_brackets(s.drop_last());
        let a = escape_html(s.drop_last());
        let b = escape_char(s.last());
        assert forall|i: int| 0 <= i < (a + b).len() implies (a + b)[i] != '<' && (a + b)[i] != '>' by {
            if i >= a.len() {
                assert((a + b)[i] == b[i - a.len()]);
            } else {
                assert((a + b)[i] == a[i]);
            }
        }
    }
}

/// What kind of element a (right-trimmed, non-blank) line makes, and its role.
pub open spec fn line_kind(t: Seq<char>) -> (ElementType, Seq<char>) {
    if heading_like(t) {
        (ElementType::Heading, "detected_heading"@)
    } else if list_item_like(t) {
        (ElementType::ListItem, "detected_list_item"@)
    } else if code_like(t) {
        (ElementType::Code, "detected_code"@)
    } else {
        (ElementType::Paragraph, "paragraph"@)
    }
}

/// The text without leading `-`, `*` and spaces.
pub open spec fn strip_list_marker(t: Seq<char>) -> Seq<char>
    decreases t.len(),
{
    if t.len() > 0 && (t[0] == '-' || t[0] == '*' || t[0] == ' ') {
        strip_list_marker(t.drop_first())
    } else {
        t
    }
}

/// The markdown of a line of the given kind.
pub open spec fn line_markdown(t: Seq<char>) -> Seq<char> {
    if heading_like(t) {
        "# "@ + trim(t)
    } else if list_item_like(t) {
        "- "@ + trim(strip_list_marker(t))
    } else if code_like(t) {
        "```\n"@ + t + "\n```"@
    } else {
        t
    }
}

/// The lines with their trailing whitespace cut, the blank ones left out.
pub open spec fn kept_lines(lines: Seq<Seq<char>>) -> Seq<Seq<char>>
    decreases lines.len(),
{
    if lines.len() == 0 {
        Seq::empty()
    } else {
        let rest = kept_lines(lines.drop_last());
        let t = trim_end(lines.last());
        if t.len() > 0 {
            rest.push(t)
        } else {
            rest
        }
    }
}

/// The lines that are not blank, as they are.
pub open spec fn nonblank_lines(lines: Seq<Seq<char>>) -> Seq<Seq<char>>
    decreases lines.len(),
{
    if lines.len() == 0 {
        Seq::empty()
    } else {
        let rest = nonblank_lines(lines.drop_last());
        if trim(lines.last()).len() > 0 {
            rest.push(lines.last())
        } else {
            rest
        }
    }
}

/// `e` is the element made of the `k`-th kept line `t` (counting from 0).
pub open spec fn txt_element(e: Element, k: int, t: Seq<char>) -> bool {
    &&& e.element_id@ == "p1_e"@ + decimal((k + 1) as nat)
    &&& e.element_type == line_kind(t).0
    &&& e.tag.is_none()
    &&& e.role.is_some() && e.role.unwrap()@ == line_kind(t).1
    &&& e.reading_order == Some((k + 1) as u32)
    &&& e.global_order == Some((k + 1) as u32)
    &&& e.bbox == Some(BBox { x0: 0, y0: k as i64, x1: 120, y1: (k + 1) as i64 })
    &&& e.text.is_some() && e.text.unwrap()@ == t
    &&& e.html.is_none()
    &&& e.markdown.is_some() && e.markdown.unwrap()@ == line_markdown(t)
    &&& e.normalized_text.is_some() && e.normalized_text.unwrap()@ == unicode_lower(t)
    &&& e.raw.is_some() && e.raw.unwrap()@ == t
    &&& e.items@.len() == 0
    &&& !e.exclude_from_chunks
    &&& e.table_linearized@.len() == 0
    &&& e.provenance.method@ == "native"@
    &&& e.provenance.tool@ == "txt_parser"@
    &&& e.provenance.stage@ == "structure_detection"@
    &&& e.provenance.source_kind.is_some() && e.provenance.source_kind.unwrap()@ == "line"@
    &&& e.provenance.source_value.is_some() && e.provenance.source_value.unwrap()@ == decimal(
        (k + 1) as nat,
    )
    &&& e.confidence_permille == 990
    &&& e.warnings@.len() == 0
    &&& e.extra@.len() == 0
}

/// A table found in a text by the table detector, with its renderings: its cell
/// texts in reading order, its size, and its Markdown, CSV and HTML forms.
pub struct DetectedTable {
    pub cell_texts: Vec<String>,
    pub rows: usize,
    pub columns: usize,
    pub markdown: String,
    pub csv: String,
    pub html: String,
}

/// The tables of a text, each with how it was found: the pipe table, then the
/// tab-separated one.
pub open spec fn txt_tables(pipe: Option<DetectedTable>, tsv: Option<DetectedTable>) -> Seq<(DetectedTable, Seq<char>)> {
    let a: Seq<(DetectedTable, Seq<char>)> = match pipe {
        Some(t) => seq![(t, "txt_pipe"@)],
        None => Seq::empty(),
    };
    let b: Seq<(DetectedTable, Seq<char>)> = match tsv {
        Some(t) => seq![(t, "txt_tsv"@)],
        None => Seq::empty(),
    };
    a + b
}

/// `e` is the table `t`, found as `method`, as the `k`-th element (from 0): its
/// text the cell texts joined by ` | `, its renderings, its size, CSV and method
/// as extra entries.
pub open spec fn txt_table_element(e: Element, k: int, t: DetectedTable, method: Seq<char>) -> bool {
    let text = join(views(t.cell_texts@), " | "@);
    &&& e.element_id@ == "p1_e"@ + decimal((k + 1) as nat)
    &&& e.element_type == ElementType::Table
    &&& e.tag.is_some() && e.tag.unwrap()@ == "txt_table"@
    &&& e.role.is_some() && e.role.unwrap()@ == "data_table"@
    &&& e.reading_order == Some((k + 1) as u32)
    &&& e.global_order == Some((k + 1) as u32)
    &&& e.bbox == Some(BBox { x0: 0, y0: k as i64, x1: 120, y1: (k + 1) as i64 })
    &&& e.text.is_some() && e.text.unwrap()@ == text
    &&& e.html.is_some() && e.html.unwrap()@ == t.html@
    &&& e.markdown.is_some() && e.markdown.unwrap()@ == t.markdown@
    &&& e.normalized_text.is_some() && e.normalized_text.unwrap()@ == unicode_lower(text)
    &&& e.raw.is_some() && e.raw.unwrap()@ == t.markdown@
    &&& e.items@.len() == 0
    &&& !e.exclude_from_chunks
    &&& e.table_linearized@.len() == 0
    &&& e.provenance.method@ == "native"@
    &&& e.provenance.tool@ == "txt_parser"@
    &&& e.provenance.stage@ == "table_detection"@
    &&& e.provenance.source_kind.is_some() && e.provenance.source_kind.unwrap()@ == "line"@
    &&& e.provenance.source_value.is_some() && e.provenance.source_value.unwrap()@ == decimal((k + 1) as nat)
    &&& e.confidence_permille == 990
    &&& e.warnings@.len() == 0
    &&& e.extra@.len() == 4
    &&& e.extra@[0].0@ == "rows"@ && e.extra@[0].1@ == decimal(t.rows as nat)
    &&& e.extra@[1].0@ == "columns"@ && e.extra@[1].1@ == decimal(t.columns as nat)
    &&& e.extra@[2].0@ == "csv"@ && e.extra@[2].1@ == t.csv@
    &&& e.extra@[3].0@ == "extraction_method"@ && e.extra@[3].1@ == method
}

fn txt_table_exec(t: &DetectedTable, k: u32, method: &str) -> (e: Element)
    requires
        k < u32::MAX,
    ensures
        txt_table_element(e, k as int, *t, method@),
{
    let text = crate::text::join_strings(&t.cell_texts, " | ");
    let number = decimal_string(k as u64 + 1);
    let mut id: Vec<char> = Vec::new();
    push_str_chars(&mut id, "p1_e");
    push_str_chars(&mut id, number.as_str());
    let lowered = to_lowercase(text.as_str());
    let mut extra: Vec<(String, String)> = Vec::new();
    extra.push((crate::text::to_owned_string("rows"), decimal_string(t.rows as u64)));
    extra.push((crate::text::to_owned_string("columns"), decimal_string(t.columns as u64)));
    extra.push((crate::text::to_owned_string("csv"), t.csv.clone()));
    extra.push((crate::text::to_owned_string("extraction_method"), crate::text::to_owned_string(method)));
    Element {
        element_id: string_from_chars(id.as_slice()),
        element_type: ElementType::Table,
        tag: Some(crate::text::to_owned_string("txt_table")),
        role: Some(crate::text::to_owned_string("data_table")),
        reading_order: Some(k + 1),
        global_order: Some(k + 1),
        bbox: Some(BBox { x0: 0, y0: k as i64, x1: 120, y1: k as i64 + 1 }),
        text: Some(text),
        markdown: Some(t.markdown.clone()),
        html: Some(t.html.clone()),
        normalized_text: Some(lowered),
        raw: Some(t.markdown.clone()),
        items: Vec::new(),
        exclude_from_chunks: false,
        table_linearized: Vec::new(),
        provenance: provenance("txt_parser", "table_detection", "line", number.as_str()),
        confidence_permille: crate::extractors::default_confidence(),
        warnings: Vec::new(),
        extra,
    }
}

/// The page of a plain text whose line endings were made uniform (`n`).
pub open spec fn txt_page(p: Page, n: Seq<char>, tables: Seq<(DetectedTable, Seq<char>)>) -> bool {
    let lines = text_lines(n);
    let kept = kept_lines(lines);
    let o = tables.len();
    &&& p.page_number == 1
    &&& p.page_type == PageType::SyntheticTextPage
    &&& p.text@ == n
    &&& p.markdown@ == join(nonblank_lines(lines), "\n"@)
    &&& p.html@ == "<pre>"@ + escape_html(n) + "</pre>"@
    &&& p.elements@.len() == o + kept.len()
    &&& forall|i: int| 0 <= i < o ==> #[trigger] txt_table_element(p.elements@[i], i, tables[i].0, tables[i].1)
    &&& forall|k: int| 0 <= k < kept.len() ==> #[trigger] txt_element(p.elements@[o + k], o + k, kept[k])
}

/// A line that is not heading-like and whose text, after leading whitespace,
/// starts with one or more ASCII digits followed by `.` or `)` (a numbered
/// item such as `1. first` or `2) second`) is read as a list item; when the
/// number opens the line, its markdown is `- ` followed by the trimmed line.
pub proof fn law_numbered_lines_are_list_items(t: Seq<char>, n: int)
    requires
        !heading_like(t),
        1 <= n < trim_start(t).len(),
        forall|k: int| 0 <= k < n ==> '0' <= #[trigger] trim_start(t)[k] && trim_start(t)[k] <= '9',
        trim_start(t)[n] == '.' || trim_start(t)[n] == ')',
    ensures
        line_kind(t).0 == ElementType::ListItem,
        line_kind(t).1 == "detected_list_item"@,
        '0' <= t[0] && t[0] <= '9' ==> line_markdown(t) == "- "@ + trim(t),
{
    let s = trim_start(t);
    assert forall|k: int| 0 <= k < n implies is_ascii_digit(#[trigger] s[k]) by {
        assert('0' <= s[k] && s[k] <= '9');
    }
    lemma_leading_digits(s, n);
    assert(ordered_list_start(s));
    assert(list_item_like(t));
    if '0' <= t[0] && t[0] <= '9' {
        assert(!is_ws(t[0]));
        assert(strip_list_marker(t) == t);
    }
}

/// A short line in capitals is a heading: when the trimmed line is at most 80
/// bytes long, has a letter, and all its letters are upper case, it is a heading
/// whose markdown is `# ` and the trimmed line. A line that does not start with
/// `#` (once trimmed) and has a lower case letter is never a heading.
pub proof fn law_capital_lines_are_headings(t: Seq<char>)
    ensures
        ({
            let u = trim(t);
            u.len() > 0 && utf8_len(u) <= 80 && (exists|i: int|
                0 <= i < u.len() && unicode_alphabetic(#[trigger] u[i])) && (forall|i: int|
                0 <= i < u.len() && unicode_alphabetic(#[trigger] u[i]) ==> unicode_uppercase(u[i])
                    && !unicode_lowercase(u[i])) ==> line_kind(t).0 == ElementType::Heading
                && line_kind(t).1 == "detected_heading"@ && line_markdown(t) == "# "@ + u
        }),
        ({
            let u = trim(t);
            (u.len() == 0 || u[0] != '#') && (exists|i: int|
                0 <= i < u.len() && unicode_alphabetic(#[trigger] u[i]) && unicode_lowercase(u[i]))
                ==> line_kind(t).0 != ElementType::Heading
        }),
{
    let u = trim(t);
    if u.len() > 0 && utf8_len(u) <= 80 && (exists|i: int|
        0 <= i < u.len() && unicode_alphabetic(#[trigger] u[i])) && (forall|i: int|
        0 <= i < u.len() && unicode_alphabetic(#[trigger] u[i]) ==> unicode_uppercase(u[i])
            && !unicode_lowercase(u[i])) {
        let i = choose|i: int| 0 <= i < u.len() && unicode_alphabetic(#[trigger] u[i]);
        assert(unicode_alphabetic(u[i]) && unicode_uppercase(u[i]));
        assert(heading_like(t));
    }
}

/// How a line is read, kind by kind: a line whose trimmed text starts with `#` is
/// a heading with the markdown `# ` and the trimmed line; a line that is not
/// heading-like and whose text after leading whitespace starts with `- ` or `* `
/// is a list item whose markdown starts with `- `; a line that is neither
/// heading-like nor list-like and is indented by four spaces or holds `{`, `}` or
/// `;` is code, its markdown the line in a fenced block; any other line is a
/// paragraph whose markdown is the line itself.
pub proof fn law_line_kinds(t: Seq<char>)
    ensures
        trim(t).len() > 0 && trim(t)[0] == '#' ==> line_kind(t).0 == ElementType::Heading
            && line_kind(t).1 == "detected_heading"@ && line_markdown(t) == "# "@ + trim(t),
        !heading_like(t) && (starts_with(trim_start(t), "- "@) || starts_with(trim_start(t), "* "@))
            ==> line_kind(t).0 == ElementType::ListItem && line_kind(t).1 == "detected_list_item"@
            && starts_with(line_markdown(t), "- "@),
        !heading_like(t) && !list_item_like(t) && (starts_with(t, "    "@) || t.contains('{')
            || t.contains('}') || t.contains(';')) ==> line_kind(t).0 == ElementType::Code
            && line_kind(t).1 == "detected_code"@ && line_markdown(t) == "```\n"@ + t + "\n```"@,
        !heading_like(t) && !list_item_like(t) && !code_like(t) ==> line_kind(t).0
            == ElementType::Paragraph && line_kind(t).1 == "paragraph"@ && line_markdown(t) == t,
{
    reveal_strlit("- ");
    reveal_strlit("{");
    reveal_strlit("}");
    reveal_strlit(";");
    if !heading_like(t) && !list_item_like(t) && (t.contains('{') || t.contains('}') || t.contains(
        ';',
    )) {
        let c = if t.contains('{') {
            '{'
        } else if t.contains('}') {
            '}'
        } else {
            ';'
        };
        let i = choose|i: int| 0 <= i < t.len() && t[i] == c;
        if c == '{' {
            assert(t.subrange(i, i + 1) =~= "{"@);
            assert(crate::text::occurs_at(t, "{"@, i));
        } else if c == '}' {
            assert(t.subrange(i, i + 1) =~= "}"@);
            assert(crate::text::occurs_at(t, "}"@, i));
        } else {
            assert(t.subrange(i, i + 1) =~= ";"@);
            assert(crate::text::occurs_at(t, ";"@, i));
        }
    }
    let m = "- "@ + trim(strip_list_marker(t));
    assert(m.subrange(0, 2) =~= "- "@);
}

/// On the page of a text, every kept line that is numbered as in
/// `law_numbered_lines_are_list_items` gives a list item element, with the
/// role `detected_list_item`.
pub proof fn law_numbered_lines_give_list_item_elements(
    p: Page,
    n: Seq<char>,
    tables: Seq<(DetectedTable, Seq<char>)>,
    k: int,
    d: int,
)
    requires
        txt_page(p, n, tables),
        0 <= k < kept_lines(text_lines(n)).len(),
        !heading_like(kept_lines(text_lines(n))[k]),
        1 <= d < trim_start(kept_lines(text_lines(n))[k]).len(),
        forall|j: int| 0 <= j < d ==> '0' <= #[trigger] trim_start(kept_lines(text_lines(n))[k])[j]
            && trim_start(kept_lines(text_lines(n))[k])[j] <= '9',
        trim_start(kept_lines(text_lines(n))[k])[d] == '.' || trim_start(
            kept_lines(text_lines(n))[k],
        )[d] == ')',
    ensures
        p.elements@[tables.len() + k].element_type == ElementType::ListItem,
        p.elements@[tables.len() + k].role.is_some(),
        p.elements@[tables.len() + k].role.unwrap()@ == "detected_list_item"@,
{
    let kept = kept_lines(text_lines(n));
    law_numbered_lines_are_list_items(kept[k], d);
    assert(txt_element(p.elements@[tables.len() + k], tables.len() + k, kept[k]));
}

fn strip_list_marker_chars(t: &[char]) -> (r: Vec<char>)
    ensures
        r@ == strip_list_marker(t@),
{
    let mut i: usize = 0;
    assert(t@.skip(0) =~= t@);
    while i < t.len() && (t[i] == '-' || t[i] == '*' || t[i] == ' ')
        invariant
            i <= t@.len(),
            strip_list_marker(t@) == strip_list_marker(t@.skip(i as int)),
        decreases t@.len() - i,
    {
        proof {
            assert(t@.skip(i as int).drop_first() =~= t@.skip(i + 1));
            assert(t@.skip(i as int)[0] == t@[i as int]);
        }
        i = i + 1;
    }
    let mut out: Vec<char> = Vec::new();
    let mut j: usize = i;
    while j < t.len()
        invariant
            i <= j <= t@.len(),
            out@ == t@.subrange(i as int, j as int),
        decreases t@.len() - j,
    {
        out.push(t[j]);
        j = j + 1;
        assert(out@ =~= t@.subrange(i as int, j as int));
    }
    proof {
        if i < t@.len() {
            assert(t@.skip(i as int)[0] == t@[i as int]);
        }
        assert(out@ =~= t@.skip(i as int));
    }
    out
}

fn line_markdown_exec(t: &[char]) -> (r: (ElementType, &'static str, String))
    ensures
        r.0 == line_kind(t@).0,
        r.1@ == line_kind(t@).1,
        r.2@ == line_markdown(t@),
{
    let ts = string_from_chars(t);
    if looks_like_heading(ts.as_str()) {
        let mut m: Vec<char> = Vec::new();
        push_str_chars(&mut m, "# ");
        let tt = trim_chars(t);
        crate::text::push_chars(&mut m, tt.as_slice());
        (ElementType::Heading, "detected_heading", string_from_chars(m.as_slice()))
    } else if looks_like_list_item(ts.as_str()) {
        let mut m: Vec<char> = Vec::new();
        push_str_chars(&mut m, "- ");
        let stripped = strip_list_marker_chars(t);
        let tt = trim_chars(stripped.as_slice());
        crate::text::push_chars(&mut m, tt.as_slice());
        (ElementType::ListItem, "detected_list_item", string_from_chars(m.as_slice()))
    } else if looks_like_code(ts.as_str()) {
        let mut m: Vec<char> = Vec::new();
        push_str_chars(&mut m, "```\n");
        crate::text::push_chars(&mut m, t);
        push_str_chars(&mut m, "\n```");
        (ElementType::Code, "detected_code", string_from_chars(m.as_slice()))
    } else {
        (ElementType::Paragraph, "paragraph", ts)
    }
}

fn txt_line_element(t: &[char], k: u32) -> (e: Element)
    requires
        k < u32::MAX,
    ensures
        txt_element(e, k as int, t@),
{
    let kind = line_markdown_exec(t);
    let ts = string_from_chars(t);
    let number = decimal_string(k as u64 + 1);
    let mut id: Vec<char> = Vec::new();
    push_str_chars(&mut id, "p1_e");
    push_str_chars(&mut id, number.as_str());
    let lowered = to_lowercase(ts.as_str());
    Element {
        element_id: string_from_chars(id.as_slice()),
        element_type: kind.0,
        tag: None,
        role: Some(crate::text::to_owned_string(kind.1)),
        reading_order: Some(k + 1),
        global_order: Some(k + 1),
        bbox: Some(BBox { x0: 0, y0: k as i64, x1: 120, y1: k as i64 + 1 }),
        text: Some(string_from_chars(t)),
        markdown: Some(kind.2),
        html: None,
        normalized_text: Some(lowered),
        raw: Some(ts),
        items: Vec::new(),
        exclude_from_chunks: false,
        table_linearized: Vec::new(),
        provenance: provenance("txt_parser", "structure_detection", "line", number.as_str()),
        confidence_permille: crate::extractors::default_confidence(),
        warnings: Vec::new(),
        extra: Vec::new(),
    }
}

proof fn lemma_split_len(s: Seq<char>, sep: char)
    ensures
        split_on(s, sep).len() <= s.len() + 1,
    decreases s.len(),
{
    if s.len() > 0 {
        lemma_split_len(s.drop_last(), sep);
        crate::text::lemma_split_on_nonempty(s.drop_last(), sep);
        let p = split_on(s.drop_last(), sep);
        if s.last() != sep {
            assert(p.update(p.len() - 1, p.last().push(s.last())).len() == p.len());
        }
    }
}

proof fn lemma_normalize_len(s: Seq<char>)
    ensures
        normalize_newlines(s).len() <= s.len(),
    decreases s.len(),
{
    if s.len() > 0 {
        if s[0] == '\r' && s.len() > 1 && s[1] == '\n' {
            lemma_normalize_len(s.skip(2));
        } else {
            lemma_normalize_len(s.drop_first());
        }
    }
}

proof fn lemma_word_count_le(s: Seq<char>)
    ensures
        word_count(s) <= s.len(),
    decreases s.len(),
{
    if s.len() > 0 {
        lemma_word_count_le(s.drop_last());
    }
}

proof fn lemma_kept_len(lines: Seq<Seq<char>>)
    ensures
        kept_lines(lines).len() <= lines.len(),
    decreases lines.len(),
{
    if lines.len() > 0 {
        lemma_kept_len(lines.drop_last());
    }
}

/// The model of a plain-text document from its decoded text and the tables the
/// table detector found in it (a pipe table, a tab-separated table): one synthetic
/// page holding the text, its non-blank lines as markdown, the text as
/// preformatted HTML, and the tables' elements followed by one element per
/// non-blank line.
pub fn build_txt_document(
    classification: &FileClassification,
    text: &str,
    processed_at: Option<String>,
    pipe_table: Option<DetectedTable>,
    tsv_table: Option<DetectedTable>,
) -> (m: DocumentModel)
    requires
        classification.input_path@.len() < 0x7fff_ffff_ffff_ffff,
        text@.len() + 3 < 0xffff_ffff,
    ensures
        skeleton_model(
            m,
            *classification,
            DocumentFormat::Txt,
            ContentMode::PlainText,
            PageType::SyntheticTextPage,
            processed_at,
        ),
        m.pages@.len() == 1,
        txt_page(m.pages@[0], normalize_newlines(text@), txt_tables(pipe_table, tsv_table)),
        m.stats == stats_for(m.pages@),
        m.document_profile.has_tables == (pipe_table.is_some() || tsv_table.is_some()),
        m.processing.stages@.len() == 2,
        m.processing.stages@[0].name@ == "encoding_detection"@,
        m.processing.stages@[0].tool@ == "utf8_lossy"@,
        m.processing.stages@[1].name@ == "structure_detection"@,
        m.processing.stages@[1].tool@ == "line_rules"@,
        m.processing.total_duration_ms == Some(2u64),
{
    let raw = chars_of(text);
    let norm = normalize_newlines_chars(raw.as_slice());
    let ghost n = norm@;
    proof {
        lemma_normalize_len(text@);
        lemma_split_len(n, '\n');
        lemma_word_count_le(n);
        crate::text::lemma_split_on_nonempty(n, '\n');
        assert(text_lines(n).len() <= split_on(n, '\n').len());
    }
    let mut model = base_document_model(
        classification,
        DocumentFormat::Txt,
        ContentMode::PlainText,
        PageType::SyntheticTextPage,
        processed_at,
    );
    let lines = lines_of(norm.as_slice());
    let ghost ls = text_lines(n);
    let ghost tables = txt_tables(pipe_table, tsv_table);
    let has_tables = pipe_table.is_some() || tsv_table.is_some();
    let mut elements: Vec<Element> = Vec::new();
    match &pipe_table {
        Some(t) => {
            elements.push(txt_table_exec(t, 0, "txt_pipe"));
        },
        None => {},
    }
    match &tsv_table {
        Some(t) => {
            let k = elements.len() as u32;
            elements.push(txt_table_exec(t, k, "txt_tsv"));
        },
        None => {},
    }
    let o: usize = elements.len();
    assert(o == tables.len());
    assert forall|i: int| 0 <= i < o implies #[trigger] txt_table_element(elements@[i], i, tables[i].0, tables[i].1) by {}
    let mut md_lines: Vec<String> = Vec::new();
    let mut i: usize = 0;
    while i < lines.len()
        invariant
            i <= lines@.len(),
            lines@.len() == ls.len(),
            ls.len() <= n.len() + 1,
            n.len() + 3 < 0xffff_ffff,
            forall|k: int| 0 <= k < lines@.len() ==> #[trigger] lines@[k]@ == ls[k],
            o == tables.len(),
            o <= 2,
            elements@.len() == o + kept_lines(ls.take(i as int)).len(),
            elements@.len() <= o + i,
            forall|j: int| 0 <= j < o ==> #[trigger] txt_table_element(elements@[j], j, tables[j].0, tables[j].1),
            forall|k: int|
                0 <= k < elements@.len() - o ==> #[trigger] txt_element(
                    elements@[o + k],
                    o + k,
                    kept_lines(ls.take(i as int))[k],
                ),
            views(md_lines@) == nonblank_lines(ls.take(i as int)),
        decreases lines@.len() - i,
    {
        proof {
            assert(ls.take(i + 1).drop_last() =~= ls.take(i as int));
            assert(ls.take(i + 1).last() == ls[i as int]);
        }
        let line = &lines[i];
        let t = trim_end_chars(line.as_slice());
        if t.len() > 0 {
            let k = elements.len();
            let e = txt_line_element(t.as_slice(), k as u32);
            elements.push(e);
        }
        let ghost before = md_lines@;
        if !crate::text::chars_is_blank(line.as_slice()) {
            md_lines.push(string_from_chars(line.as_slice()));
            assert(views(md_lines@) =~= views(before).push(ls[i as int]));
        }
        i = i + 1;
    }
    proof {
        assert(ls.take(i as int) =~= ls);
        lemma_kept_len(ls);
    }
    let markdown = crate::text::join_strings(&md_lines, "\n");
    let escaped = html_escape(string_from_chars(norm.as_slice()).as_str());
    let mut html: Vec<char> = Vec::new();
    push_str_chars(&mut html, "<pre>");
    push_str_chars(&mut html, escaped.as_str());
    push_str_chars(&mut html, "</pre>");
    let mut page = model.pages.remove(0);
    page.elements = elements;
    page.text = string_from_chars(norm.as_slice());
    page.markdown = markdown;
    page.html = string_from_chars(html.as_slice());
    model.pages.push(page);
    proof {
        let ps = model.pages@;
        assert(ps.drop_last() =~= Seq::<Page>::empty());
        let c = StatsCount { chars: page.text@.len(), words: word_count(page.text@), ..zero_count() };
        lemma_count_elements_grows(c, page.elements@);
    }
    update_stats(&mut model);
    model.document_profile.has_tables = has_tables;
    model.processing.stages.push(stage("encoding_detection", "utf8_lossy", 1));
    model.processing.stages.push(stage("structure_detection", "line_rules", 1));
    model.processing.total_duration_ms = Some(2);
    model
}

} // verus!
