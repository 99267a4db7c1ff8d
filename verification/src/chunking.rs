//! Splitting a document into semantic chunks for retrieval.

use vstd::prelude::*;
use vstd::utf8::encode_utf8;
use crate::model::{
    Chunk, ChunkMetadata, DocumentModel, Element, ElementType, Page, clone_opt_string,
    element_markdown_of, element_text_of,
};
use crate::text::{
    chars_of, decimal, decimal_chars, join, join_strings, lower_chars, lower_seq, push_chars,
    push_str_chars, seq_contains, str_contains, string_from_chars, views,
};

verus! {

broadcast use vstd::string::group_string_axioms;

#[derive(Debug)]
pub struct SemanticChunker {
    pub max_token_estimate: usize,
}

impl Default for SemanticChunker {
    fn default() -> (s: Self)
        ensures
            s.max_token_estimate == 1000,
    {
        SemanticChunker { max_token_estimate: 1_000 }
    }
}

/// The length in bytes of the UTF-8 encoding of `s`, as `str::len` reports it.
pub open spec fn utf8_len(s: Seq<char>) -> nat {
    (encode_utf8(s).len() as usize) as nat
}

/// The token estimate for a text of `bytes` bytes.
pub open spec fn tokens_for(bytes: nat) -> nat {
    bytes / 4 + 1
}

/// A chunk as the contracts see it.
pub struct ChunkSpec {
    pub chunk_id: Seq<char>,
    pub chunk_type: Seq<char>,
    pub title: Option<Seq<char>>,
    pub section_path: Seq<Seq<char>>,
    pub page_start: u32,
    pub page_end: u32,
    pub element_ids: Seq<Seq<char>>,
    pub token_estimate: u32,
    pub text: Seq<char>,
    pub markdown: Seq<char>,
    pub language: Seq<char>,
    pub contains_table: bool,
    pub contains_image: bool,
    pub contains_formula: bool,
    pub contains_code: bool,
    pub contains_ocr: bool,
}

pub open spec fn opt_seq(o: Option<String>) -> Option<Seq<char>> {
    match o {
        Some(s) => Some(s@),
        None => None,
    }
}

pub open spec fn chunk_view(c: Chunk) -> ChunkSpec {
    ChunkSpec {
        chunk_id: c.chunk_id@,
        chunk_type: c.chunk_type@,
        title: opt_seq(c.title),
        section_path: views(c.section_path@),
        page_start: c.page_start,
        page_end: c.page_end,
        element_ids: views(c.element_ids@),
        token_estimate: c.token_estimate,
        text: c.text@,
        markdown: c.markdown@,
        language: c.metadata.language@,
        contains_table: c.metadata.contains_table,
        contains_image: c.metadata.contains_image,
        contains_formula: c.metadata.contains_formula,
        contains_code: c.metadata.contains_code,
        contains_ocr: c.metadata.contains_ocr,
    }
}

pub open spec fn chunk_views(v: Seq<Chunk>) -> Seq<ChunkSpec> {
    v.map_values(|c: Chunk| chunk_view(c))
}

/// The type of a chunk of running text: `table` when its text holds a `|`, `code`
/// when it holds a code fence, `section` otherwise.
pub open spec fn section_chunk_type(text: Seq<char>) -> Seq<char> {
    if seq_contains(text, "|"@) {
        "table"@
    } else if seq_contains(text, "```"@) {
        "code"@
    } else {
        "section"@
    }
}

/// The chunk built from a run of elements.
pub open spec fn section_chunk(
    index: nat,
    title: Option<Seq<char>>,
    section_path: Seq<Seq<char>>,
    page_start: u32,
    page_end: u32,
    ids: Seq<Seq<char>>,
    text: Seq<char>,
    markdown: Seq<char>,
) -> ChunkSpec {
    let ct = section_chunk_type(text);
    ChunkSpec {
        chunk_id: "chunk_"@ + decimal(index),
        chunk_type: ct,
        title,
        section_path,
        page_start,
        page_end,
        element_ids: ids,
        token_estimate: tokens_for(utf8_len(text)) as u32,
        text,
        markdown,
        language: "ru"@,
        contains_table: ct == "table"@ || seq_contains(markdown, "|"@),
        contains_image: seq_contains(markdown, "!["@),
        contains_formula: seq_contains(markdown, "$$"@) || (seq_contains(text, "="@)
            && seq_contains(text, "^"@)),
        contains_code: ct == "code"@ || seq_contains(markdown, "```"@),
        contains_ocr: seq_contains(lower_seq(text), "invoice"@) && seq_contains(
            lower_seq(text),
            "total"@,
        ),
    }
}

/// The text of a table chunk: the linearized row groups joined by newlines, or the
/// element's text when there are none.
pub open spec fn table_chunk_text(e: Element) -> Seq<char> {
    if e.table_linearized@.len() == 0 {
        element_text_of(e)
    } else {
        join(views(e.table_linearized@), "\n"@)
    }
}

/// The chunk that a table element forms on its own.
pub open spec fn table_chunk(index: nat, page_number: u32, e: Element) -> ChunkSpec {
    let text = table_chunk_text(e);
    ChunkSpec {
        chunk_id: "chunk_table_"@ + decimal(index),
        chunk_type: "table"@,
        title: Some("Таблица"@),
        section_path: Seq::empty(),
        page_start: page_number,
        page_end: page_number,
        element_ids: seq![e.element_id@],
        token_estimate: tokens_for(utf8_len(text)) as u32,
        text,
        markdown: element_markdown_of(e),
        language: "ru"@,
        contains_table: true,
        contains_image: false,
        contains_formula: match e.text {
            Some(t) => seq_contains(t@, "="@) || seq_contains(t@, "SUM("@),
            None => false,
        },
        contains_code: false,
        contains_ocr: false,
    }
}

/// The state of the chunker between two elements.
pub struct ChunkerState {
    pub chunks: Seq<ChunkSpec>,
    pub title: Option<Seq<char>>,
    pub section: Seq<Seq<char>>,
    pub text: Seq<char>,
    pub markdown: Seq<char>,
    pub ids: Seq<Seq<char>>,
    pub page_start: u32,
    pub page_end: u32,
}

pub open spec fn initial_state() -> ChunkerState {
    ChunkerState {
        chunks: Seq::empty(),
        title: None,
        section: Seq::empty(),
        text: Seq::empty(),
        markdown: Seq::empty(),
        ids: Seq::empty(),
        page_start: 1,
        page_end: 1,
    }
}

/// The chunks after the pending run is closed into a chunk.
pub open spec fn flush(st: ChunkerState) -> Seq<ChunkSpec> {
    st.chunks.push(
        section_chunk(
            (st.chunks.len() + 1) as nat,
            st.title,
            st.section,
            st.page_start,
            st.page_end,
            st.ids,
            st.text,
            st.markdown,
        ),
    )
}

/// The state after the pending run is closed and a new run starts on `page_start`.
pub open spec fn flushed(st: ChunkerState, page_start: u32) -> ChunkerState {
    ChunkerState {
        chunks: flush(st),
        text: Seq::empty(),
        markdown: Seq::empty(),
        ids: Seq::empty(),
        page_start,
        ..st
    }
}

pub open spec fn append_line(cur: Seq<char>, t: Seq<char>) -> Seq<char> {
    if t.len() == 0 {
        cur
    } else if cur.len() == 0 {
        t
    } else {
        cur + "\n"@ + t
    }
}

pub open spec fn append_block(cur: Seq<char>, m: Seq<char>) -> Seq<char> {
    if m.len() == 0 {
        cur
    } else if cur.len() == 0 {
        m
    } else {
        cur + "\n\n"@ + m
    }
}

/// One element through the chunker.
pub open spec fn step(max: nat, st: ChunkerState, page_number: u32, e: Element) -> ChunkerState {
    if e.exclude_from_chunks {
        st
    } else if e.element_type == ElementType::Table {
        let st1 = if st.ids.len() > 0 {
            flushed(st, st.page_start)
        } else {
            st
        };
        ChunkerState {
            chunks: st1.chunks.push(table_chunk((st1.chunks.len() + 1) as nat, page_number, e)),
            page_start: page_number,
            page_end: page_number,
            ..st1
        }
    } else {
        let t = element_text_of(e);
        let m = element_markdown_of(e);
        let is_heading = e.element_type == ElementType::Heading;
        let overflow = tokens_for(utf8_len(st.text) + utf8_len(t)) > max;
        let st1 = if is_heading && st.ids.len() > 0 {
            flushed(st, page_number)
        } else {
            st
        };
        let st2 = if overflow && st1.ids.len() > 0 {
            flushed(st1, page_number)
        } else {
            st1
        };
        let st3 = if is_heading {
            ChunkerState { title: Some(t), section: seq![t], ..st2 }
        } else {
            st2
        };
        ChunkerState {
            page_end: page_number,
            ids: st3.ids.push(e.element_id@),
            text: append_line(st3.text, t),
            markdown: append_block(st3.markdown, m),
            ..st3
        }
    }
}

pub open spec fn fold_elements(max: nat, st: ChunkerState, page_number: u32, es: Seq<Element>) -> ChunkerState
    decreases es.len(),
{
    if es.len() == 0 {
        st
    } else {
        step(max, fold_elements(max, st, page_number, es.drop_last()), page_number, es.last())
    }
}

pub open spec fn fold_pages(max: nat, st: ChunkerState, pages: Seq<Page>) -> ChunkerState
    decreases pages.len(),
{
    if pages.len() == 0 {
        st
    } else {
        fold_elements(
            max,
            fold_pages(max, st, pages.drop_last()),
            pages.last().page_number,
            pages.last().elements@,
        )
    }
}

/// The chunks of a document: the pages' elements folded through the chunker, and the
/// last pending run closed.
pub open spec fn document_chunks(max: nat, pages: Seq<Page>) -> Seq<ChunkSpec> {
    let st = fold_pages(max, initial_state(), pages);
    if st.ids.len() > 0 {
        flush(st)
    } else {
        st.chunks
    }
}

/// The number of elements on all pages.
pub open spec fn total_elements(pages: Seq<Page>) -> nat
    decreases pages.len(),
{
    if pages.len() == 0 {
        0
    } else {
        total_elements(pages.drop_last()) + pages.last().elements@.len()
    }
}

pub proof fn lemma_total_elements_prefix(pages: Seq<Page>, i: int)
    requires
        0 <= i <= pages.len(),
    ensures
        total_elements(pages.take(i)) <= total_elements(pages),
    decreases pages.len() - i,
{
    if i < pages.len() {
        lemma_total_elements_prefix(pages, i + 1);
        assert(pages.take(i + 1).drop_last() =~= pages.take(i));
    } else {
        assert(pages.take(i) =~= pages);
    }
}

pub fn estimate_tokens(char_count: usize) -> (r: usize)
    ensures
        r == char_count / 4 + 1,
{
    char_count / 4 + 1
}

/// The element's `content.text`, or empty.
pub fn element_text(element: &Element) -> (r: String)
    ensures
        r@ == element_text_of(*element),
{
    match &element.text {
        Some(t) => t.clone(),
        None => String::new(),
    }
}

/// The element's `content.markdown`, or empty.
pub fn element_markdown(element: &Element) -> (r: String)
    ensures
        r@ == element_markdown_of(*element),
{
    match &element.markdown {
        Some(t) => t.clone(),
        None => String::new(),
    }
}

fn str_is(s: &str, lit: &str) -> (r: bool)
    ensures
        r == (s@ == lit@),
{
    let a = chars_of(s);
    crate::classifier::chars_eq(a.as_slice(), lit)
}

fn prefixed_id(prefix: &str, index: usize) -> (r: String)
    ensures
        r@ == prefix@ + decimal(index as nat),
{
    let mut v: Vec<char> = Vec::new();
    push_str_chars(&mut v, prefix);
    let d = decimal_chars(index as u64);
    push_chars(&mut v, d.as_slice());
    string_from_chars(v.as_slice())
}

fn token_count(text: &String) -> (r: u32)
    ensures
        r == tokens_for(utf8_len(text@)) as u32,
{
    let n = text.as_str().len();
    estimate_tokens(n) as u32
}

/// Builds the chunk of a run of elements.
pub fn build_chunk(
    index: usize,
    title: Option<String>,
    section_path: Vec<String>,
    page_start: u32,
    page_end: u32,
    element_ids: Vec<String>,
    text: String,
    markdown: String,
) -> (c: Chunk)
    ensures
        chunk_view(c) == section_chunk(
            index as nat,
            opt_seq(title),
            views(section_path@),
            page_start,
            page_end,
            views(element_ids@),
            text@,
            markdown@,
        ),
{
    let chunk_type = if str_contains(text.as_str(), "|") {
        "table".to_string()
    } else if str_contains(text.as_str(), "```") {
        "code".to_string()
    } else {
        "section".to_string()
    };
    let is_table = str_is(chunk_type.as_str(), "table");
    let is_code = str_is(chunk_type.as_str(), "code");
    let contains_table = is_table || str_contains(markdown.as_str(), "|");
    let contains_formula = str_contains(markdown.as_str(), "$$") || (str_contains(
        text.as_str(),
        "=",
    ) && str_contains(text.as_str(), "^"));
    let contains_image = str_contains(markdown.as_str(), "![");
    let text_chars = chars_of(text.as_str());
    let lowered = lower_chars(text_chars.as_slice());
    let invoice = chars_of("invoice");
    let total = chars_of("total");
    let contains_ocr = crate::text::contains_chars(lowered.as_slice(), invoice.as_slice())
        && crate::text::contains_chars(lowered.as_slice(), total.as_slice());
    let contains_code = is_code || str_contains(markdown.as_str(), "```");
    let token_estimate = token_count(&text);
    let chunk_id = prefixed_id("chunk_", index);
    Chunk {
        chunk_id,
        chunk_type,
        title,
        section_path,
        page_start,
        page_end,
        element_ids,
        token_estimate,
        text,
        markdown,
        metadata: ChunkMetadata {
            language: "ru".to_string(),
            contains_table,
            contains_image,
            contains_formula,
            contains_code,
            contains_ocr,
        },
    }
}

/// Builds the chunk that a table element forms on its own.
pub fn build_table_chunk(index: usize, page_number: u32, element: &Element) -> (c: Chunk)
    ensures
        chunk_view(c) == table_chunk(index as nat, page_number, *element),
{
    let markdown = element_markdown(element);
    let text = if element.table_linearized.len() == 0 {
        element_text(element)
    } else {
        join_strings(&element.table_linearized, "\n")
    };
    let contains_formula = match &element.text {
        Some(t) => str_contains(t.as_str(), "=") || str_contains(t.as_str(), "SUM("),
        None => false,
    };
    let token_estimate = token_count(&text);
    let mut ids: Vec<String> = Vec::new();
    ids.push(element.element_id.clone());
    let c = Chunk {
        chunk_id: prefixed_id("chunk_table_", index),
        chunk_type: "table".to_string(),
        title: Some("Таблица".to_string()),
        section_path: Vec::new(),
        page_start: page_number,
        page_end: page_number,
        element_ids: ids,
        token_estimate,
        text,
        markdown,
        metadata: ChunkMetadata {
            language: "ru".to_string(),
            contains_table: true,
            contains_image: false,
            contains_formula,
            contains_code: false,
            contains_ocr: false,
        },
    };
    assert(views(c.element_ids@) =~= seq![element.element_id@]);
    assert(views(c.section_path@) =~= Seq::<Seq<char>>::empty());
    c
}

fn clone_strings(v: &Vec<String>) -> (r: Vec<String>)
    ensures
        views(r@) == views(v@),
{
    let mut out: Vec<String> = Vec::new();
    let mut i: usize = 0;
    while i < v.len()
        invariant
            i <= v@.len(),
            views(out@) == views(v@).take(i as int),
        decreases v@.len() - i,
    {
        let c = v[i].clone();
        let ghost before = out@;
        out.push(c);
        proof {
            assert(out@ == before.push(c));
            assert(views(out@) =~= views(before).push(c@));
            assert(views(v@).take(i + 1) =~= views(v@).take(i as int).push(v@[i as int]@));
        }
        i = i + 1;
    }
    assert(views(v@).take(i as int) =~= views(v@));
    out
}

/// The chunker's running state.
struct Pending {
    chunks: Vec<Chunk>,
    title: Option<String>,
    section: Vec<String>,
    text: String,
    markdown: String,
    ids: Vec<String>,
    page_start: u32,
    page_end: u32,
}

impl Pending {
    spec fn state(&self) -> ChunkerState {
        ChunkerState {
            chunks: chunk_views(self.chunks@),
            title: opt_seq(self.title),
            section: views(self.section@),
            text: self.text@,
            markdown: self.markdown@,
            ids: views(self.ids@),
            page_start: self.page_start,
            page_end: self.page_end,
        }
    }

    /// Closes the pending run into a chunk and starts a new run on `page_start`.
    fn close_run(&mut self, page_start: u32)
        requires
            old(self).chunks@.len() < usize::MAX,
        ensures
            final(self).state() == flushed(old(self).state(), page_start),
            final(self).chunks@.len() == old(self).chunks@.len() + 1,
            final(self).ids@.len() == 0,
    {
        let mut ids: Vec<String> = Vec::new();
        std::mem::swap(&mut ids, &mut self.ids);
        let mut text = String::new();
        std::mem::swap(&mut text, &mut self.text);
        let mut markdown = String::new();
        std::mem::swap(&mut markdown, &mut self.markdown);
        let index = self.chunks.len() + 1;
        let c = build_chunk(
            index,
            clone_opt_string(&self.title),
            clone_strings(&self.section),
            self.page_start,
            self.page_end,
            ids,
            text,
            markdown,
        );
        let ghost before = self.chunks@;
        self.chunks.push(c);
        self.page_start = page_start;
        proof {
            assert(chunk_views(self.chunks@) =~= chunk_views(before).push(chunk_view(c)));
            assert(views(self.ids@) =~= Seq::<Seq<char>>::empty());
        }
    }

    fn take_element(&mut self, max: usize, page_number: u32, element: &Element)
        requires
            old(self).chunks@.len() + old(self).ids@.len() < usize::MAX,
        ensures
            final(self).state() == step(max as nat, old(self).state(), page_number, *element),
            final(self).chunks@.len() + final(self).ids@.len() <= old(self).chunks@.len() + old(
                self,
            ).ids@.len() + 1,
    {
        let ghost st0 = self.state();
        if element.exclude_from_chunks {
            return;
        }
        if element.element_type == ElementType::Table {
            if self.ids.len() > 0 {
                let ps = self.page_start;
                self.close_run(ps);
            }
            let ghost st1 = self.state();
            let index = self.chunks.len() + 1;
            let c = build_table_chunk(index, page_number, element);
            let ghost before = self.chunks@;
            self.chunks.push(c);
            self.page_start = page_number;
            self.page_end = page_number;
            assert(chunk_views(self.chunks@) =~= chunk_views(before).push(chunk_view(c)));
            assert(self.state() == ChunkerState {
                chunks: st1.chunks.push(table_chunk((st1.chunks.len() + 1) as nat, page_number, *element)),
                page_start: page_number,
                page_end: page_number,
                ..st1
            });
            return;
        }
        let text = element_text(element);
        let markdown = element_markdown(element);
        let is_heading = element.element_type == ElementType::Heading;
        let cur_len = self.text.as_str().len();
        let add_len = text.as_str().len();
        let would_overflow = (cur_len as u128 + add_len as u128) / 4 + 1 > max as u128;
        assert(would_overflow == (tokens_for(utf8_len(st0.text) + utf8_len(text@)) > max as nat));
        if is_heading && self.ids.len() > 0 {
            self.close_run(page_number);
        }
        let ghost st1 = self.state();
        assert(st1 == (if is_heading && st0.ids.len() > 0 {
            flushed(st0, page_number)
        } else {
            st0
        }));
        if would_overflow && self.ids.len() > 0 {
            self.close_run(page_number);
        }
        let ghost st2 = self.state();
        if is_heading {
            self.title = Some(text.clone());
            let mut section: Vec<String> = Vec::new();
            section.push(text.clone());
            self.section = section;
            assert(views(self.section@) =~= seq![text@]);
        }
        let ghost st3 = self.state();
        assert(st3 == (if is_heading {
            ChunkerState { title: Some(text@), section: seq![text@], ..st2 }
        } else {
            st2
        }));
        self.page_end = page_number;
        let ghost ids_before = self.ids@;
        self.ids.push(element.element_id.clone());
        assert(views(self.ids@) =~= views(ids_before).push(element.element_id@));
        if !text.as_str().is_empty() {
            if !self.text.as_str().is_empty() {
                let mut v = chars_of(self.text.as_str());
                v.push('\n');
                push_str_chars(&mut v, text.as_str());
                self.text = string_from_chars(v.as_slice());
                proof {
                    reveal_strlit("\n");
                    assert(self.text@ =~= st3.text + "\n"@ + text@);
                }
            } else {
                self.text = text;
            }
        }
        if !markdown.as_str().is_empty() {
            if !self.markdown.as_str().is_empty() {
                let mut v = chars_of(self.markdown.as_str());
                v.push('\n');
                v.push('\n');
                push_str_chars(&mut v, markdown.as_str());
                self.markdown = string_from_chars(v.as_slice());
                proof {
                    reveal_strlit("\n\n");
                    assert(self.markdown@ =~= st3.markdown + "\n\n"@ + markdown@);
                }
            } else {
                self.markdown = markdown;
            }
        }
    }
}

impl SemanticChunker {
    /// Splits a document into chunks: runs of elements close at each heading and
    /// before an element that would push the run over the token budget; a table
    /// forms a chunk of its own; elements marked to be left out are skipped.
    pub fn chunk_document(&self, document: &DocumentModel) -> (r: Vec<Chunk>)
        requires
            total_elements(document.pages@) < usize::MAX,
        ensures
            chunk_views(r@) == document_chunks(self.max_token_estimate as nat, document.pages@),
    {
        let max = self.max_token_estimate;
        let mut acc = Pending {
            chunks: Vec::new(),
            title: None,
            section: Vec::new(),
            text: String::new(),
            markdown: String::new(),
            ids: Vec::new(),
            page_start: 1,
            page_end: 1,
        };
        assert(chunk_views(acc.chunks@) =~= Seq::<ChunkSpec>::empty());
        assert(views(acc.section@) =~= Seq::<Seq<char>>::empty());
        assert(views(acc.ids@) =~= Seq::<Seq<char>>::empty());
        assert(acc.state() == initial_state());
        let pages = &document.pages;
        let mut pi: usize = 0;
        while pi < pages.len()
            invariant
                pi <= pages@.len(),
                pages@ == document.pages@,
                total_elements(pages@) < usize::MAX,
                acc.chunks@.len() + acc.ids@.len() <= total_elements(pages@.take(pi as int)),
                acc.state() == fold_pages(max as nat, initial_state(), pages@.take(pi as int)),
            decreases pages@.len() - pi,
        {
            let page = &pages[pi];
            let ghost base = acc.state();
            let ghost done = total_elements(pages@.take(pi as int));
            proof {
                assert(pages@.take(pi + 1).drop_last() =~= pages@.take(pi as int));
                lemma_total_elements_prefix(pages@, pi + 1);
            }
            let mut ei: usize = 0;
            while ei < page.elements.len()
                invariant
                    ei <= page.elements@.len(),
                    done + page.elements@.len() < usize::MAX,
                    acc.chunks@.len() + acc.ids@.len() <= done + ei,
                    acc.state() == fold_elements(
                        max as nat,
                        base,
                        page.page_number,
                        page.elements@.take(ei as int),
                    ),
                decreases page.elements@.len() - ei,
            {
                acc.take_element(max, page.page_number, &page.elements[ei]);
                ei = ei + 1;
                assert(page.elements@.take(ei as int).drop_last() =~= page.elements@.take(
                    ei - 1,
                ));
            }
            assert(page.elements@.take(ei as int) =~= page.elements@);
            pi = pi + 1;
            assert(pages@.take(pi as int).drop_last() =~= pages@.take(pi - 1));
        }
        assert(pages@.take(pi as int) =~= pages@);
        if acc.ids.len() > 0 {
            let ps = acc.page_start;
            acc.close_run(ps);
        }
        acc.chunks
    }
}


/// The identifiers of the elements that are not left out, page by page, in order.
pub open spec fn kept_ids_elements(es: Seq<Element>) -> Seq<Seq<char>>
    decreases es.len(),
{
    if es.len() == 0 {
        Seq::empty()
    } else if es.last().exclude_from_chunks {
        kept_ids_elements(es.drop_last())
    } else {
        kept_ids_elements(es.drop_last()).push(es.last().element_id@)
    }
}

pub open spec fn kept_ids(pages: Seq<Page>) -> Seq<Seq<char>>
    decreases pages.len(),
{
    if pages.len() == 0 {
        Seq::empty()
    } else {
        kept_ids(pages.drop_last()) + kept_ids_elements(pages.last().elements@)
    }
}

/// The element identifiers of the chunks, one chunk after another.
pub open spec fn concat_ids(chunks: Seq<ChunkSpec>) -> Seq<Seq<char>>
    decreases chunks.len(),
{
    if chunks.len() == 0 {
        Seq::empty()
    } else {
        concat_ids(chunks.drop_last()) + chunks.last().element_ids
    }
}

/// Every chunk names at least one element and carries the number of its place.
pub open spec fn well_numbered(chunks: Seq<ChunkSpec>) -> bool {
    forall|i: int|
        0 <= i < chunks.len() ==> #[trigger] chunks[i].element_ids.len() > 0 && (
        chunks[i].chunk_id == "chunk_"@ + decimal((i + 1) as nat) || chunks[i].chunk_id
            == "chunk_table_"@ + decimal((i + 1) as nat))
}

proof fn lemma_push_chunk(chunks: Seq<ChunkSpec>, c: ChunkSpec)
    requires
        well_numbered(chunks),
        c.element_ids.len() > 0,
        c.chunk_id == "chunk_"@ + decimal((chunks.len() + 1) as nat) || c.chunk_id
            == "chunk_table_"@ + decimal((chunks.len() + 1) as nat),
    ensures
        well_numbered(chunks.push(c)),
        concat_ids(chunks.push(c)) == concat_ids(chunks) + c.element_ids,
{
    assert(chunks.push(c).drop_last() =~= chunks);
    assert forall|i: int| 0 <= i < chunks.push(c).len() implies #[trigger] chunks.push(
        c,
    )[i].element_ids.len() > 0 && (chunks.push(c)[i].chunk_id == "chunk_"@ + decimal(
        (i + 1) as nat,
    ) || chunks.push(c)[i].chunk_id == "chunk_table_"@ + decimal((i + 1) as nat)) by {
        if i < chunks.len() {
            assert(chunks.push(c)[i] == chunks[i]);
        }
    }
}

proof fn lemma_flush(st: ChunkerState)
    requires
        well_numbered(st.chunks),
        st.ids.len() > 0,
    ensures
        well_numbered(flush(st)),
        concat_ids(flush(st)) == concat_ids(st.chunks) + st.ids,
{
    lemma_push_chunk(
        st.chunks,
        section_chunk(
            (st.chunks.len() + 1) as nat,
            st.title,
            st.section,
            st.page_start,
            st.page_end,
            st.ids,
            st.text,
            st.markdown,
        ),
    );
}

proof fn lemma_step(max: nat, st: ChunkerState, page_number: u32, e: Element)
    requires
        well_numbered(st.chunks),
    ensures
        well_numbered(step(max, st, page_number, e).chunks),
        concat_ids(step(max, st, page_number, e).chunks) + step(max, st, page_number, e).ids == (
        if e.exclude_from_chunks {
            concat_ids(st.chunks) + st.ids
        } else {
            (concat_ids(st.chunks) + st.ids).push(e.element_id@)
        }),
{
    if e.exclude_from_chunks {
    } else if e.element_type == ElementType::Table {
        let st1 = if st.ids.len() > 0 {
            flushed(st, st.page_start)
        } else {
            st
        };
        if st.ids.len() > 0 {
            lemma_flush(st);
        }
        assert(st1.ids.len() == 0);
        assert(concat_ids(st1.chunks) =~= concat_ids(st.chunks) + st.ids);
        lemma_push_chunk(st1.chunks, table_chunk((st1.chunks.len() + 1) as nat, page_number, e));
        let r = step(max, st, page_number, e);
        assert(concat_ids(r.chunks) + r.ids =~= (concat_ids(st.chunks) + st.ids).push(
            e.element_id@,
        ));
    } else {
        let t = element_text_of(e);
        let is_heading = e.element_type == ElementType::Heading;
        let overflow = tokens_for(utf8_len(st.text) + utf8_len(t)) > max;
        let st1 = if is_heading && st.ids.len() > 0 {
            flushed(st, page_number)
        } else {
            st
        };
        if is_heading && st.ids.len() > 0 {
            lemma_flush(st);
        }
        assert(concat_ids(st1.chunks) + st1.ids =~= concat_ids(st.chunks) + st.ids);
        let st2 = if overflow && st1.ids.len() > 0 {
            flushed(st1, page_number)
        } else {
            st1
        };
        if overflow && st1.ids.len() > 0 {
            lemma_flush(st1);
        }
        assert(concat_ids(st2.chunks) + st2.ids =~= concat_ids(st.chunks) + st.ids);
        let r = step(max, st, page_number, e);
        assert(r.chunks == st2.chunks);
        assert(concat_ids(r.chunks) + r.ids =~= (concat_ids(st.chunks) + st.ids).push(
            e.element_id@,
        ));
    }
}

proof fn lemma_fold_elements(max: nat, st: ChunkerState, page_number: u32, es: Seq<Element>)
    requires
        well_numbered(st.chunks),
    ensures
        well_numbered(fold_elements(max, st, page_number, es).chunks),
        concat_ids(fold_elements(max, st, page_number, es).chunks) + fold_elements(
            max,
            st,
            page_number,
            es,
        ).ids == concat_ids(st.chunks) + st.ids + kept_ids_elements(es),
    decreases es.len(),
{
    if es.len() == 0 {
        assert(concat_ids(st.chunks) + st.ids + kept_ids_elements(es) =~= concat_ids(st.chunks)
            + st.ids);
    } else {
        lemma_fold_elements(max, st, page_number, es.drop_last());
        let prev = fold_elements(max, st, page_number, es.drop_last());
        lemma_step(max, prev, page_number, es.last());
        assert(concat_ids(st.chunks) + st.ids + kept_ids_elements(es) =~= if es.last().exclude_from_chunks {
            concat_ids(st.chunks) + st.ids + kept_ids_elements(es.drop_last())
        } else {
            (concat_ids(st.chunks) + st.ids + kept_ids_elements(es.drop_last())).push(
                es.last().element_id@,
            )
        });
    }
}

proof fn lemma_fold_pages(max: nat, pages: Seq<Page>)
    ensures
        well_numbered(fold_pages(max, initial_state(), pages).chunks),
        concat_ids(fold_pages(max, initial_state(), pages).chunks) + fold_pages(
            max,
            initial_state(),
            pages,
        ).ids == kept_ids(pages),
    decreases pages.len(),
{
    if pages.len() == 0 {
        assert(concat_ids(Seq::<ChunkSpec>::empty()) + Seq::<Seq<char>>::empty() =~= kept_ids(
            pages,
        ));
    } else {
        lemma_fold_pages(max, pages.drop_last());
        let prev = fold_pages(max, initial_state(), pages.drop_last());
        lemma_fold_elements(max, prev, pages.last().page_number, pages.last().elements@);
        assert(kept_ids(pages) =~= kept_ids(pages.drop_last()) + kept_ids_elements(
            pages.last().elements@,
        ));
    }
}

/// Chunking loses no element and repeats none: read one chunk after another, the
/// chunks name exactly the elements that are not marked to be left out, in page and
/// reading order. Every chunk names at least one element, and the chunk in place
/// `i` carries the number `i + 1` in its identifier.
pub proof fn law_chunks_partition_elements(max: nat, pages: Seq<Page>)
    ensures
        concat_ids(document_chunks(max, pages)) == kept_ids(pages),
        well_numbered(document_chunks(max, pages)),
{
    lemma_fold_pages(max, pages);
    let st = fold_pages(max, initial_state(), pages);
    if st.ids.len() > 0 {
        lemma_flush(st);
    } else {
        assert(concat_ids(st.chunks) + st.ids =~= concat_ids(st.chunks));
    }
}

/// Some element with the identifier `id` stands on a page numbered `page_number`.
pub open spec fn element_on_page(pages: Seq<Page>, id: Seq<char>, page_number: u32) -> bool {
    exists|p: int, k: int|
        #![trigger pages[p].elements@[k]]
        0 <= p < pages.len() && 0 <= k < pages[p].elements@.len() && pages[p].elements@[k].element_id@
            == id && pages[p].page_number == page_number
}

/// Every closed chunk, and the pending run, ends on the page of its last element.
pub open spec fn ends_on_last_page(pages: Seq<Page>, st: ChunkerState) -> bool {
    &&& forall|i: int|
        0 <= i < st.chunks.len() ==> #[trigger] st.chunks[i].element_ids.len() > 0
            && element_on_page(pages, st.chunks[i].element_ids.last(), st.chunks[i].page_end)
    &&& st.ids.len() > 0 ==> element_on_page(pages, st.ids.last(), st.page_end)
}

proof fn lemma_push_ending_chunk(pages: Seq<Page>, st: ChunkerState, c: ChunkSpec)
    requires
        ends_on_last_page(pages, st),
        c.element_ids.len() > 0,
        element_on_page(pages, c.element_ids.last(), c.page_end),
    ensures
        forall|i: int|
            0 <= i < st.chunks.push(c).len() ==> #[trigger] st.chunks.push(c)[i].element_ids.len()
                > 0 && element_on_page(
                pages,
                st.chunks.push(c)[i].element_ids.last(),
                st.chunks.push(c)[i].page_end,
            ),
{
    assert forall|i: int| 0 <= i < st.chunks.push(c).len() implies #[trigger] st.chunks.push(
        c,
    )[i].element_ids.len() > 0 && element_on_page(
        pages,
        st.chunks.push(c)[i].element_ids.last(),
        st.chunks.push(c)[i].page_end,
    ) by {
        if i < st.chunks.len() {
            assert(st.chunks.push(c)[i] == st.chunks[i]);
        }
    }
}

proof fn lemma_flushed_ends(pages: Seq<Page>, st: ChunkerState, page_start: u32)
    requires
        ends_on_last_page(pages, st),
        st.ids.len() > 0,
    ensures
        ends_on_last_page(pages, flushed(st, page_start)),
{
    lemma_push_ending_chunk(
        pages,
        st,
        section_chunk(
            (st.chunks.len() + 1) as nat,
            st.title,
            st.section,
            st.page_start,
            st.page_end,
            st.ids,
            st.text,
            st.markdown,
        ),
    );
}

proof fn lemma_step_ends(max: nat, pages: Seq<Page>, st: ChunkerState, page_number: u32, e: Element)
    requires
        ends_on_last_page(pages, st),
        !e.exclude_from_chunks ==> element_on_page(pages, e.element_id@, page_number),
    ensures
        ends_on_last_page(pages, step(max, st, page_number, e)),
{
    if e.exclude_from_chunks {
    } else if e.element_type == ElementType::Table {
        let st1 = if st.ids.len() > 0 {
            flushed(st, st.page_start)
        } else {
            st
        };
        if st.ids.len() > 0 {
            lemma_flushed_ends(pages, st, st.page_start);
        }
        let c = table_chunk((st1.chunks.len() + 1) as nat, page_number, e);
        assert(c.element_ids.last() == e.element_id@);
        lemma_push_ending_chunk(pages, st1, c);
    } else {
        let t = element_text_of(e);
        let is_heading = e.element_type == ElementType::Heading;
        let overflow = tokens_for(utf8_len(st.text) + utf8_len(t)) > max;
        let st1 = if is_heading && st.ids.len() > 0 {
            flushed(st, page_number)
        } else {
            st
        };
        if is_heading && st.ids.len() > 0 {
            lemma_flushed_ends(pages, st, page_number);
        }
        let st2 = if overflow && st1.ids.len() > 0 {
            flushed(st1, page_number)
        } else {
            st1
        };
        if overflow && st1.ids.len() > 0 {
            lemma_flushed_ends(pages, st1, page_number);
        }
        let r = step(max, st, page_number, e);
        assert(r.chunks == st2.chunks);
        assert(r.ids.last() == e.element_id@);
    }
}

proof fn lemma_fold_elements_ends(max: nat, pages: Seq<Page>, st: ChunkerState, p: int, j: int)
    requires
        0 <= p < pages.len(),
        0 <= j <= pages[p].elements@.len(),
        ends_on_last_page(pages, st),
    ensures
        ends_on_last_page(
            pages,
            fold_elements(max, st, pages[p].page_number, pages[p].elements@.take(j)),
        ),
    decreases j,
{
    let es = pages[p].elements@.take(j);
    if j > 0 {
        assert(es.drop_last() =~= pages[p].elements@.take(j - 1));
        lemma_fold_elements_ends(max, pages, st, p, j - 1);
        assert(es.last() == pages[p].elements@[j - 1]);
        let w = pages[p].elements@[j - 1];
        assert(element_on_page(pages, w.element_id@, pages[p].page_number));
        lemma_step_ends(
            max,
            pages,
            fold_elements(max, st, pages[p].page_number, es.drop_last()),
            pages[p].page_number,
            es.last(),
        );
    }
}

proof fn lemma_fold_pages_ends(max: nat, pages: Seq<Page>, i: int)
    requires
        0 <= i <= pages.len(),
    ensures
        ends_on_last_page(pages, fold_pages(max, initial_state(), pages.take(i))),
    decreases i,
{
    let ps = pages.take(i);
    if i > 0 {
        assert(ps.drop_last() =~= pages.take(i - 1));
        lemma_fold_pages_ends(max, pages, i - 1);
        assert(ps.last() == pages[i - 1]);
        assert(pages[i - 1].elements@.take(pages[i - 1].elements@.len() as int)
            =~= pages[i - 1].elements@);
        lemma_fold_elements_ends(
            max,
            pages,
            fold_pages(max, initial_state(), ps.drop_last()),
            i - 1,
            pages[i - 1].elements@.len() as int,
        );
    }
}

/// Every chunk ends on the page of the last element it names: its `page_end` is the
/// number of a page on which an element with that identifier stands. A run of text
/// that goes on from one page to the next therefore ends on the later page.
pub proof fn law_chunk_ends_on_page_of_last_element(max: nat, pages: Seq<Page>)
    ensures
        forall|i: int|
            0 <= i < document_chunks(max, pages).len() ==> #[trigger] document_chunks(
                max,
                pages,
            )[i].element_ids.len() > 0 && element_on_page(
                pages,
                document_chunks(max, pages)[i].element_ids.last(),
                document_chunks(max, pages)[i].page_end,
            ),
{
    assert(pages.take(pages.len() as int) =~= pages);
    lemma_fold_pages_ends(max, pages, pages.len() as int);
    let st = fold_pages(max, initial_state(), pages);
    if st.ids.len() > 0 {
        lemma_flushed_ends(pages, st, st.page_start);
        assert(flushed(st, st.page_start).chunks == flush(st));
    }
}

/// Every closed chunk, and the pending run, starts on a page no later than it ends.
pub open spec fn starts_before_ends(st: ChunkerState) -> bool {
    &&& forall|i: int| 0 <= i < st.chunks.len() ==> #[trigger] st.chunks[i].page_start <= st.chunks[i].page_end
    &&& st.ids.len() > 0 ==> st.page_start <= st.page_end
}

proof fn lemma_flushed_starts(st: ChunkerState, page_start: u32)
    requires
        starts_before_ends(st),
        st.ids.len() > 0,
    ensures
        starts_before_ends(flushed(st, page_start)),
{
    let f = flushed(st, page_start);
    assert forall|i: int| 0 <= i < f.chunks.len() implies #[trigger] f.chunks[i].page_start
        <= f.chunks[i].page_end by {
        if i < st.chunks.len() {
            assert(f.chunks[i] == st.chunks[i]);
        }
    }
}

proof fn lemma_step_starts(max: nat, st: ChunkerState, page_number: u32, e: Element)
    requires
        starts_before_ends(st),
        st.page_start <= page_number,
    ensures
        starts_before_ends(step(max, st, page_number, e)),
        step(max, st, page_number, e).page_start <= page_number,
{
    if e.exclude_from_chunks {
    } else if e.element_type == ElementType::Table {
        let st1 = if st.ids.len() > 0 {
            flushed(st, st.page_start)
        } else {
            st
        };
        if st.ids.len() > 0 {
            lemma_flushed_starts(st, st.page_start);
        }
        let r = step(max, st, page_number, e);
        assert forall|i: int| 0 <= i < r.chunks.len() implies #[trigger] r.chunks[i].page_start
            <= r.chunks[i].page_end by {
            if i < st1.chunks.len() {
                assert(r.chunks[i] == st1.chunks[i]);
            }
        }
    } else {
        let t = element_text_of(e);
        let is_heading = e.element_type == ElementType::Heading;
        let overflow = tokens_for(utf8_len(st.text) + utf8_len(t)) > max;
        let st1 = if is_heading && st.ids.len() > 0 {
            flushed(st, page_number)
        } else {
            st
        };
        if is_heading && st.ids.len() > 0 {
            lemma_flushed_starts(st, page_number);
        }
        let st2 = if overflow && st1.ids.len() > 0 {
            flushed(st1, page_number)
        } else {
            st1
        };
        if overflow && st1.ids.len() > 0 {
            lemma_flushed_starts(st1, page_number);
        }
        let r = step(max, st, page_number, e);
        assert(r.chunks == st2.chunks);
    }
}

proof fn lemma_fold_elements_starts(max: nat, st: ChunkerState, page_number: u32, es: Seq<Element>)
    requires
        starts_before_ends(st),
        st.page_start <= page_number,
    ensures
        starts_before_ends(fold_elements(max, st, page_number, es)),
        fold_elements(max, st, page_number, es).page_start <= page_number,
    decreases es.len(),
{
    if es.len() > 0 {
        lemma_fold_elements_starts(max, st, page_number, es.drop_last());
        lemma_step_starts(
            max,
            fold_elements(max, st, page_number, es.drop_last()),
            page_number,
            es.last(),
        );
    }
}

proof fn lemma_fold_pages_starts(max: nat, pages: Seq<Page>, i: int)
    requires
        0 <= i <= pages.len(),
        forall|a: int, b: int|
            0 <= a < b < pages.len() ==> #[trigger] pages[a].page_number <= #[trigger] pages[b].page_number,
        forall|a: int| 0 <= a < pages.len() ==> #[trigger] pages[a].page_number >= 1,
    ensures
        starts_before_ends(fold_pages(max, initial_state(), pages.take(i))),
        forall|j: int|
            i <= j < pages.len() ==> fold_pages(max, initial_state(), pages.take(i)).page_start
                <= #[trigger] pages[j].page_number,
    decreases i,
{
    let ps = pages.take(i);
    if i > 0 {
        assert(ps.drop_last() =~= pages.take(i - 1));
        lemma_fold_pages_starts(max, pages, i - 1);
        assert(ps.last() == pages[i - 1]);
        let prev = fold_pages(max, initial_state(), ps.drop_last());
        assert(prev.page_start <= pages[i - 1].page_number);
        lemma_fold_elements_starts(max, prev, pages[i - 1].page_number, pages[i - 1].elements@);
        assert forall|j: int| i <= j < pages.len() implies fold_pages(
            max,
            initial_state(),
            ps,
        ).page_start <= #[trigger] pages[j].page_number by {
            assert(pages[i - 1].page_number <= pages[j].page_number);
        }
    }
}

/// When the pages are numbered from 1 on in ascending order, every chunk starts on
/// a page no later than the one it ends on.
pub proof fn law_chunk_starts_no_later_than_it_ends(max: nat, pages: Seq<Page>)
    requires
        forall|a: int, b: int|
            0 <= a < b < pages.len() ==> #[trigger] pages[a].page_number <= #[trigger] pages[b].page_number,
        forall|a: int| 0 <= a < pages.len() ==> #[trigger] pages[a].page_number >= 1,
    ensures
        forall|i: int|
            0 <= i < document_chunks(max, pages).len() ==> #[trigger] document_chunks(
                max,
                pages,
            )[i].page_start <= document_chunks(max, pages)[i].page_end,
{
    assert(pages.take(pages.len() as int) =~= pages);
    lemma_fold_pages_starts(max, pages, pages.len() as int);
    let st = fold_pages(max, initial_state(), pages);
    if st.ids.len() > 0 {
        lemma_flushed_starts(st, st.page_start);
        assert(flushed(st, st.page_start).chunks == flush(st));
    }
}

/// The elements of a page that go into chunks, in order.
pub open spec fn kept_elements_of(es: Seq<Element>) -> Seq<Element>
    decreases es.len(),
{
    if es.len() == 0 {
        Seq::empty()
    } else if es.last().exclude_from_chunks {
        kept_elements_of(es.drop_last())
    } else {
        kept_elements_of(es.drop_last()).push(es.last())
    }
}

/// The elements of all pages that go into chunks, in page and reading order.
pub open spec fn kept_elements(pages: Seq<Page>) -> Seq<Element>
    decreases pages.len(),
{
    if pages.len() == 0 {
        Seq::empty()
    } else {
        kept_elements(pages.drop_last()) + kept_elements_of(pages.last().elements@)
    }
}

/// For each element named by the chunks, one chunk after another: whether it is the
/// first element of its chunk.
pub open spec fn opening_marks(chunks: Seq<ChunkSpec>) -> Seq<bool>
    decreases chunks.len(),
{
    if chunks.len() == 0 {
        Seq::empty()
    } else {
        opening_marks(chunks.drop_last()) + Seq::new(chunks.last().element_ids.len(), |k: int| k == 0)
    }
}

/// The opening marks of the closed chunks and of the pending run.
pub open spec fn run_marks(st: ChunkerState) -> Seq<bool> {
    opening_marks(st.chunks) + Seq::new(st.ids.len(), |k: int| k == 0)
}

/// Of the elements `kept` met so far, every heading and every table opens a chunk
/// (or the pending run), and the one after a table opens the next.
pub open spec fn opens_at_headings_and_tables(st: ChunkerState, kept: Seq<Element>) -> bool {
    let m = run_marks(st);
    &&& m.len() == kept.len()
    &&& forall|j: int|
        0 <= j < kept.len() && ((#[trigger] kept[j]).element_type == ElementType::Heading
            || kept[j].element_type == ElementType::Table) ==> m[j]
    &&& forall|j: int|
        0 <= j && j + 1 < kept.len() && (#[trigger] kept[j]).element_type == ElementType::Table
            ==> m[j + 1]
    &&& kept.len() > 0 && kept.last().element_type == ElementType::Table ==> st.ids.len() == 0
}

proof fn lemma_flushed_marks(st: ChunkerState, page_start: u32)
    ensures
        run_marks(flushed(st, page_start)) == run_marks(st),
        flushed(st, page_start).ids.len() == 0,
{
    let f = flushed(st, page_start);
    assert(f.chunks.drop_last() =~= st.chunks);
    assert(opening_marks(f.chunks) =~= opening_marks(st.chunks) + Seq::new(
        st.ids.len(),
        |k: int| k == 0,
    ));
    assert(run_marks(f) =~= run_marks(st));
}

proof fn lemma_step_marks(max: nat, st: ChunkerState, page_number: u32, e: Element, kept: Seq<Element>)
    requires
        opens_at_headings_and_tables(st, kept),
    ensures
        opens_at_headings_and_tables(
            step(max, st, page_number, e),
            if e.exclude_from_chunks {
                kept
            } else {
                kept.push(e)
            },
        ),
{
    if e.exclude_from_chunks {
    } else if e.element_type == ElementType::Table {
        let st1 = if st.ids.len() > 0 {
            flushed(st, st.page_start)
        } else {
            st
        };
        lemma_flushed_marks(st, st.page_start);
        assert(run_marks(st1) == run_marks(st));
        assert(st1.ids.len() == 0);
        let r = step(max, st, page_number, e);
        let tc = table_chunk((st1.chunks.len() + 1) as nat, page_number, e);
        assert(r.chunks == st1.chunks.push(tc));
        assert(r.chunks.drop_last() =~= st1.chunks);
        assert(run_marks(st1) =~= opening_marks(st1.chunks));
        assert(run_marks(r) =~= run_marks(st).push(true));
        let k2 = kept.push(e);
        assert forall|j: int|
            0 <= j && j + 1 < k2.len() && (#[trigger] k2[j]).element_type == ElementType::Table
                implies run_marks(r)[j + 1] by {
            if j + 1 < kept.len() {
                assert(k2[j] == kept[j]);
            }
        }
        assert forall|j: int|
            0 <= j < k2.len() && ((#[trigger] k2[j]).element_type == ElementType::Heading
                || k2[j].element_type == ElementType::Table) implies run_marks(r)[j] by {
            if j < kept.len() {
                assert(k2[j] == kept[j]);
            }
        }
    } else {
        let t = element_text_of(e);
        let is_heading = e.element_type == ElementType::Heading;
        let overflow = tokens_for(utf8_len(st.text) + utf8_len(t)) > max;
        let st1 = if is_heading && st.ids.len() > 0 {
            flushed(st, page_number)
        } else {
            st
        };
        lemma_flushed_marks(st, page_number);
        let st2 = if overflow && st1.ids.len() > 0 {
            flushed(st1, page_number)
        } else {
            st1
        };
        lemma_flushed_marks(st1, page_number);
        assert(run_marks(st2) == run_marks(st));
        let r = step(max, st, page_number, e);
        assert(r.chunks == st2.chunks);
        assert(r.ids == st2.ids.push(e.element_id@));
        assert(run_marks(r) =~= run_marks(st2).push(st2.ids.len() == 0));
        assert(is_heading ==> st2.ids.len() == 0);
        assert(kept.len() > 0 && kept.last().element_type == ElementType::Table ==> st2.ids.len()
            == 0);
        let k2 = kept.push(e);
        assert forall|j: int|
            0 <= j && j + 1 < k2.len() && (#[trigger] k2[j]).element_type == ElementType::Table
                implies run_marks(r)[j + 1] by {
            assert(k2[j] == kept[j]);
            if j + 1 == kept.len() {
                assert(kept.last() == kept[j]);
            }
        }
        assert forall|j: int|
            0 <= j < k2.len() && ((#[trigger] k2[j]).element_type == ElementType::Heading
                || k2[j].element_type == ElementType::Table) implies run_marks(r)[j] by {
            if j < kept.len() {
                assert(k2[j] == kept[j]);
            }
        }
    }
}

proof fn lemma_fold_elements_marks(
    max: nat,
    st: ChunkerState,
    page_number: u32,
    es: Seq<Element>,
    kept: Seq<Element>,
)
    requires
        opens_at_headings_and_tables(st, kept),
    ensures
        opens_at_headings_and_tables(
            fold_elements(max, st, page_number, es),
            kept + kept_elements_of(es),
        ),
    decreases es.len(),
{
    if es.len() == 0 {
        assert(kept + kept_elements_of(es) =~= kept);
    } else {
        lemma_fold_elements_marks(max, st, page_number, es.drop_last(), kept);
        let prev = fold_elements(max, st, page_number, es.drop_last());
        let k1 = kept + kept_elements_of(es.drop_last());
        lemma_step_marks(max, prev, page_number, es.last(), k1);
        if es.last().exclude_from_chunks {
            assert(kept + kept_elements_of(es) =~= k1);
        } else {
            assert(kept + kept_elements_of(es) =~= k1.push(es.last()));
        }
    }
}

proof fn lemma_fold_pages_marks(max: nat, pages: Seq<Page>)
    ensures
        opens_at_headings_and_tables(fold_pages(max, initial_state(), pages), kept_elements(pages)),
    decreases pages.len(),
{
    if pages.len() == 0 {
        assert(run_marks(initial_state()) =~= Seq::<bool>::empty());
    } else {
        lemma_fold_pages_marks(max, pages.drop_last());
        lemma_fold_elements_marks(
            max,
            fold_pages(max, initial_state(), pages.drop_last()),
            pages.last().page_number,
            pages.last().elements@,
            kept_elements(pages.drop_last()),
        );
    }
}

proof fn lemma_kept_ids_of_elements(es: Seq<Element>)
    ensures
        kept_ids_elements(es) == kept_elements_of(es).map_values(|e: Element| e.element_id@),
    decreases es.len(),
{
    if es.len() > 0 {
        lemma_kept_ids_of_elements(es.drop_last());
        assert(kept_ids_elements(es) =~= kept_elements_of(es).map_values(|e: Element| e.element_id@));
    } else {
        assert(kept_ids_elements(es) =~= kept_elements_of(es).map_values(|e: Element| e.element_id@));
    }
}

proof fn lemma_kept_ids_of_pages(pages: Seq<Page>)
    ensures
        kept_ids(pages) == kept_elements(pages).map_values(|e: Element| e.element_id@),
    decreases pages.len(),
{
    if pages.len() > 0 {
        lemma_kept_ids_of_pages(pages.drop_last());
        lemma_kept_ids_of_elements(pages.last().elements@);
    }
    assert(kept_ids(pages) =~= kept_elements(pages).map_values(|e: Element| e.element_id@));
}

/// Chunks break at headings and around tables. Read one chunk after another, the
/// chunks name the elements that go into chunks in their order; every heading and
/// every table is the first element of the chunk that names it, and the element
/// after a table is the first of the next chunk, so a table forms a chunk alone.
pub proof fn law_headings_and_tables_open_chunks(max: nat, pages: Seq<Page>)
    ensures
        opening_marks(document_chunks(max, pages)).len() == kept_elements(pages).len(),
        concat_ids(document_chunks(max, pages)).len() == kept_elements(pages).len(),
        forall|j: int|
            0 <= j < kept_elements(pages).len() ==> concat_ids(document_chunks(max, pages))[j]
                == (#[trigger] kept_elements(pages)[j]).element_id@,
        forall|j: int|
            0 <= j < kept_elements(pages).len() && ((#[trigger] kept_elements(pages)[j]).element_type
                == ElementType::Heading || kept_elements(pages)[j].element_type == ElementType::Table)
                ==> opening_marks(document_chunks(max, pages))[j],
        forall|j: int|
            0 <= j && j + 1 < kept_elements(pages).len() && (#[trigger] kept_elements(
                pages,
            )[j]).element_type == ElementType::Table ==> opening_marks(
                document_chunks(max, pages),
            )[j + 1],
{
    law_chunks_partition_elements(max, pages);
    lemma_kept_ids_of_pages(pages);
    lemma_fold_pages_marks(max, pages);
    let st = fold_pages(max, initial_state(), pages);
    if st.ids.len() > 0 {
        lemma_flushed_marks(st, st.page_start);
        assert(flushed(st, st.page_start).chunks == flush(st));
        assert(opening_marks(flush(st)) == run_marks(flushed(st, st.page_start)));
    } else {
        assert(run_marks(st) =~= opening_marks(st.chunks));
    }
}

} // verus!
