//! Recognising running headers and footers that repeat across pages.

use vstd::prelude::*;
use crate::model::{Element, ElementType, Page, element_text_of};
use crate::text::{
    chars_of, is_ascii_digit, is_ascii_digit_char, lower_chars, lower_seq, squeeze_ws,
    squeeze_ws_chars, starts_with, starts_with_chars, string_from_chars, to_owned_string, trim,
    trim_chars,
};

verus! {

broadcast use vstd::string::group_string_axioms;

#[derive(Debug)]
pub struct HeaderFooterDetectionResult {
    pub header_element_ids: Vec<String>,
    pub footer_element_ids: Vec<String>,
}

/// The key under which repeated texts are compared: ASCII-lowercased, whitespace
/// collapsed to single spaces, no leading or trailing whitespace.
pub open spec fn repeat_key(text: Seq<char>) -> Seq<char> {
    squeeze_ws(lower_seq(text))
}

/// A text that reads as a page number: only ASCII digits, or `стр` followed by
/// something with a digit (once trimmed).
pub open spec fn page_number_like(text: Seq<char>) -> bool {
    let t = trim(text);
    t.len() > 0 && ((forall|i: int| 0 <= i < t.len() ==> is_ascii_digit(#[trigger] t[i])) || (
    starts_with(t, "стр"@) && exists|i: int| 0 <= i < t.len() && is_ascii_digit(#[trigger] t[i])))
}

pub fn normalize_text_for_repeat(text: &str) -> (r: String)
    ensures
        r@ == repeat_key(text@),
{
    let v = chars_of(text);
    let l = lower_chars(v.as_slice());
    let s = squeeze_ws_chars(l.as_slice());
    string_from_chars(s.as_slice())
}

pub fn is_page_number_like(text: &str) -> (r: bool)
    ensures
        r == page_number_like(text@),
{
    let v = chars_of(text);
    let t = trim_chars(v.as_slice());
    if t.len() == 0 {
        return false;
    }
    let mut all_digits = true;
    let mut any_digit = false;
    let mut i: usize = 0;
    while i < t.len()
        invariant
            i <= t@.len(),
            all_digits == (forall|k: int| 0 <= k < i ==> is_ascii_digit(#[trigger] t@[k])),
            any_digit == (exists|k: int| 0 <= k < i && is_ascii_digit(#[trigger] t@[k])),
        decreases t@.len() - i,
    {
        let d = is_ascii_digit_char(t[i]);
        proof {
            if !d {
                assert(!is_ascii_digit(t@[i as int]));
            } else {
                assert(is_ascii_digit(t@[i as int]));
            }
        }
        all_digits = all_digits && d;
        any_digit = any_digit || d;
        i = i + 1;
    }
    let prefix = chars_of("стр");
    all_digits || (starts_with_chars(t.as_slice(), prefix.as_slice()) && any_digit)
}

/// The height against which an element's position on its page is judged: the
/// page's height, else the lowest bottom edge of its elements, else 1400.
pub open spec fn max_bottom(es: Seq<Element>) -> Option<i64>
    decreases es.len(),
{
    if es.len() == 0 {
        None
    } else {
        let m = max_bottom(es.drop_last());
        match es.last().bbox {
            None => m,
            Some(b) => match m {
                None => Some(b.y1),
                Some(v) => Some(if b.y1 > v { b.y1 } else { v }),
            },
        }
    }
}

pub open spec fn judged_height(p: Page) -> i64 {
    match p.height {
        Some(h) => h,
        None => match max_bottom(p.elements@) {
            Some(m) => m,
            None => 1400,
        },
    }
}

/// An element's entry under its repeat key.
pub struct RepeatEntry {
    pub key: Seq<char>,
    pub page_number: u32,
    pub element_id: Seq<char>,
}

/// The element lies in the top band (its top within 12% of the height) or, for
/// `bottom`, in the bottom band (its bottom beyond 88% of the height).
pub open spec fn in_band(e: Element, height: i64, bottom: bool) -> bool {
    match e.bbox {
        None => false,
        Some(b) => if bottom {
            100 * b.y1 >= 88 * height
        } else {
            100 * b.y0 <= 12 * height
        },
    }
}

/// The element takes part: it has a box, a non-blank text and a non-empty key, and
/// lies in the band.
pub open spec fn takes_part(e: Element, height: i64, bottom: bool) -> bool {
    let t = trim(element_text_of(e));
    e.bbox.is_some() && t.len() > 0 && repeat_key(t).len() > 0 && in_band(e, height, bottom)
}

pub open spec fn band_entries_elements(es: Seq<Element>, page_number: u32, height: i64, bottom: bool) -> Seq<RepeatEntry>
    decreases es.len(),
{
    if es.len() == 0 {
        Seq::empty()
    } else {
        let prev = band_entries_elements(es.drop_last(), page_number, height, bottom);
        let e = es.last();
        if takes_part(e, height, bottom) {
            prev.push(
                RepeatEntry {
                    key: repeat_key(trim(element_text_of(e))),
                    page_number,
                    element_id: e.element_id@,
                },
            )
        } else {
            prev
        }
    }
}

/// The entries of the top (or bottom) band of all pages, in document order.
pub open spec fn band_entries(pages: Seq<Page>, bottom: bool) -> Seq<RepeatEntry>
    decreases pages.len(),
{
    if pages.len() == 0 {
        Seq::empty()
    } else {
        let p = pages.last();
        band_entries(pages.drop_last(), bottom) + band_entries_elements(
            p.elements@,
            p.page_number,
            judged_height(p),
            bottom,
        )
    }
}

/// The distinct pages on which `key` occurs among the entries, in first-seen order.
pub open spec fn pages_with_key(entries: Seq<RepeatEntry>, key: Seq<char>) -> Seq<u32>
    decreases entries.len(),
{
    if entries.len() == 0 {
        Seq::empty()
    } else {
        let d = pages_with_key(entries.drop_last(), key);
        let e = entries.last();
        if e.key == key && !d.contains(e.page_number) {
            d.push(e.page_number)
        } else {
            d
        }
    }
}

/// How many pages a text must repeat on: half of them, rounded up, and at least two.
pub open spec fn repeat_threshold(page_count: nat) -> nat {
    let half = (page_count + 1) / 2;
    if half > 2 {
        half
    } else {
        2
    }
}

/// The identifiers of the entries that qualify, in document order.
pub open spec fn qualifying_ids(entries: Seq<RepeatEntry>, all: Seq<RepeatEntry>, threshold: nat, bottom: bool) -> Seq<Seq<char>>
    decreases entries.len(),
{
    if entries.len() == 0 {
        Seq::empty()
    } else {
        let prev = qualifying_ids(entries.drop_last(), all, threshold, bottom);
        let e = entries.last();
        if pages_with_key(all, e.key).len() >= threshold || (bottom && page_number_like(e.key)) {
            prev.push(e.element_id)
        } else {
            prev
        }
    }
}

pub open spec fn detected_ids(pages: Seq<Page>, bottom: bool) -> Seq<Seq<char>> {
    if pages.len() < 2 {
        Seq::empty()
    } else {
        let all = band_entries(pages, bottom);
        qualifying_ids(all, all, repeat_threshold(pages.len()), bottom)
    }
}

struct Entry {
    key: String,
    page_number: u32,
    element_id: String,
}

spec fn entry_view(e: Entry) -> RepeatEntry {
    RepeatEntry { key: e.key@, page_number: e.page_number, element_id: e.element_id@ }
}

spec fn entry_views(v: Seq<Entry>) -> Seq<RepeatEntry> {
    v.map_values(|e: Entry| entry_view(e))
}

fn page_height(page: &Page) -> (h: i64)
    ensures
        h == judged_height(*page),
{
    match page.height {
        Some(h) => h,
        None => {
            let mut m: Option<i64> = None;
            let mut i: usize = 0;
            while i < page.elements.len()
                invariant
                    i <= page.elements@.len(),
                    m == max_bottom(page.elements@.take(i as int)),
                decreases page.elements@.len() - i,
            {
                proof {
                    assert(page.elements@.take(i + 1).drop_last() =~= page.elements@.take(
                        i as int,
                    ));
                }
                match page.elements[i].bbox {
                    None => {},
                    Some(b) => {
                        m = match m {
                            None => Some(b.y1),
                            Some(v) => Some(if b.y1 > v { b.y1 } else { v }),
                        };
                    },
                }
                i = i + 1;
            }
            assert(page.elements@.take(i as int) =~= page.elements@);
            match m {
                Some(v) => v,
                None => 1400,
            }
        },
    }
}

fn str_eq_exec(a: &String, b: &String) -> (r: bool)
    ensures
        r == (a@ == b@),
{
    a.eq(b)
}

fn count_pages_with_key(entries: &Vec<Entry>, key: &String) -> (n: usize)
    ensures
        n == pages_with_key(entry_views(entries@), key@).len(),
{
    let mut seen: Vec<u32> = Vec::new();
    let mut i: usize = 0;
    while i < entries.len()
        invariant
            i <= entries@.len(),
            seen@ == pages_with_key(entry_views(entries@).take(i as int), key@),
            seen@.len() <= i,
        decreases entries@.len() - i,
    {
        proof {
            assert(entry_views(entries@).take(i + 1).drop_last() =~= entry_views(entries@).take(
                i as int,
            ));
        }
        let e = &entries[i];
        if str_eq_exec(&e.key, key) {
            let mut found = false;
            let mut j: usize = 0;
            while j < seen.len()
                invariant
                    j <= seen@.len(),
                    found == (exists|k: int| 0 <= k < j && seen@[k] == e.page_number),
                decreases seen@.len() - j,
            {
                if seen[j] == e.page_number {
                    found = true;
                }
                j = j + 1;
            }
            proof {
                if found {
                    let k = choose|k: int| 0 <= k < j && seen@[k] == e.page_number;
                    assert(seen@.contains(e.page_number)) by {
                        assert(seen@[k] == e.page_number);
                    }
                } else {
                    assert(!seen@.contains(e.page_number));
                }
            }
            if !found {
                seen.push(e.page_number);
            }
        }
        i = i + 1;
    }
    assert(entry_views(entries@).take(i as int) =~= entry_views(entries@));
    seen.len()
}

fn collect_band_entries(pages: &Vec<Page>, bottom: bool) -> (r: Vec<Entry>)
    ensures
        entry_views(r@) == band_entries(pages@, bottom),
{
    let mut out: Vec<Entry> = Vec::new();
    let mut pi: usize = 0;
    while pi < pages.len()
        invariant
            pi <= pages@.len(),
            entry_views(out@) == band_entries(pages@.take(pi as int), bottom),
        decreases pages@.len() - pi,
    {
        let page = &pages[pi];
        let height = page_height(page);
        let ghost base = out@;
        let mut ei: usize = 0;
        while ei < page.elements.len()
            invariant
                ei <= page.elements@.len(),
                height == judged_height(*page),
                entry_views(out@) == entry_views(base) + band_entries_elements(
                    page.elements@.take(ei as int),
                    page.page_number,
                    height,
                    bottom,
                ),
            decreases page.elements@.len() - ei,
        {
            let e = &page.elements[ei];
            proof {
                assert(page.elements@.take(ei + 1).drop_last() =~= page.elements@.take(ei as int));
                assert(page.elements@.take(ei + 1).last() == *e);
            }
            let ghost before = out@;
            let ghost prev_entries = band_entries_elements(
                page.elements@.take(ei as int),
                page.page_number,
                height,
                bottom,
            );
            match e.bbox {
                None => {},
                Some(b) => {
                    let raw = match &e.text {
                        Some(t) => chars_of(t.as_str()),
                        None => Vec::new(),
                    };
                    let t = trim_chars(raw.as_slice());
                    if t.len() > 0 {
                        let lowered = lower_chars(t.as_slice());
                        let key = squeeze_ws_chars(lowered.as_slice());
                        if key.len() > 0 {
                            let inside = if bottom {
                                100 * (b.y1 as i128) >= 88 * (height as i128)
                            } else {
                                100 * (b.y0 as i128) <= 12 * (height as i128)
                            };
                            if inside {
                                let entry = Entry {
                                    key: string_from_chars(key.as_slice()),
                                    page_number: page.page_number,
                                    element_id: e.element_id.clone(),
                                };
                                out.push(entry);
                                assert(entry_views(out@) =~= entry_views(before).push(
                                    entry_view(entry),
                                ));
                            }
                        }
                    }
                },
            }
            ei = ei + 1;
            assert(entry_views(out@) =~= entry_views(base) + band_entries_elements(
                page.elements@.take(ei as int),
                page.page_number,
                height,
                bottom,
            ));
        }
        assert(page.elements@.take(ei as int) =~= page.elements@);
        pi = pi + 1;
        assert(pages@.take(pi as int).drop_last() =~= pages@.take(pi - 1));
        assert(entry_views(out@) =~= band_entries(pages@.take(pi as int), bottom));
    }
    assert(pages@.take(pi as int) =~= pages@);
    out
}

fn qualifying(all: &Vec<Entry>, threshold: usize, bottom: bool) -> (r: Vec<String>)
    ensures
        crate::text::views(r@) == qualifying_ids(
            entry_views(all@),
            entry_views(all@),
            threshold as nat,
            bottom,
        ),
{
    let mut out: Vec<String> = Vec::new();
    let mut i: usize = 0;
    while i < all.len()
        invariant
            i <= all@.len(),
            crate::text::views(out@) == qualifying_ids(
                entry_views(all@).take(i as int),
                entry_views(all@),
                threshold as nat,
                bottom,
            ),
        decreases all@.len() - i,
    {
        let e = &all[i];
        proof {
            assert(entry_views(all@).take(i + 1).drop_last() =~= entry_views(all@).take(i as int));
        }
        let count = count_pages_with_key(all, &e.key);
        let keep = count >= threshold || (bottom && is_page_number_like(e.key.as_str()));
        let ghost before = out@;
        if keep {
            out.push(e.element_id.clone());
            assert(crate::text::views(out@) =~= crate::text::views(before).push(e.element_id@));
        }
        i = i + 1;
    }
    assert(entry_views(all@).take(i as int) =~= entry_views(all@));
    out
}

/// Finds the elements whose text repeats in the top band (headers) or the bottom
/// band (footers) of at least half of the pages, and at least two; a bottom-band
/// text that reads as a page number counts as a footer on its own. Nothing is
/// found in a document of fewer than two pages.
pub fn detect_repeated_headers_footers(pages: &Vec<Page>) -> (r: HeaderFooterDetectionResult)
    ensures
        crate::text::views(r.header_element_ids@) == detected_ids(pages@, false),
        crate::text::views(r.footer_element_ids@) == detected_ids(pages@, true),
{
    if pages.len() < 2 {
        let r = HeaderFooterDetectionResult {
            header_element_ids: Vec::new(),
            footer_element_ids: Vec::new(),
        };
        assert(crate::text::views(r.header_element_ids@) =~= Seq::<Seq<char>>::empty());
        assert(crate::text::views(r.footer_element_ids@) =~= Seq::<Seq<char>>::empty());
        return r;
    }
    let n = pages.len();
    let half = n / 2 + n % 2;
    let threshold = if half > 2 {
        half
    } else {
        2
    };
    assert(threshold == repeat_threshold(n as nat));
    let top = collect_band_entries(pages, false);
    let bottom = collect_band_entries(pages, true);
    let headers = qualifying(&top, threshold, false);
    let footers = qualifying(&bottom, threshold, true);
    HeaderFooterDetectionResult { header_element_ids: headers, footer_element_ids: footers }
}

/// The role that marking gives an element listed among the footers.
pub open spec fn footer_role(e: Element) -> Seq<char> {
    if page_number_like(element_text_of(e)) {
        "page_number"@
    } else {
        "repeated_footer"@
    }
}

/// `n` is `o` after marking: an element listed among the footers becomes a
/// `Footer` whose role tells a page number from a repeated footer; else one listed
/// among the headers becomes a `Header` with the role `repeated_header`; else it is
/// unchanged. Nothing but the type and the role changes.
pub open spec fn marked_element(o: Element, n: Element, headers: Seq<Seq<char>>, footers: Seq<Seq<char>>) -> bool {
    &&& n == Element { element_type: n.element_type, role: n.role, ..o }
    &&& if footers.contains(o.element_id@) {
        n.element_type == ElementType::Footer && n.role.is_some() && n.role.unwrap()@ == footer_role(o)
    } else if headers.contains(o.element_id@) {
        n.element_type == ElementType::Header && n.role.is_some() && n.role.unwrap()@ == "repeated_header"@
    } else {
        n == o
    }
}

/// `n` is the page `o` with each of its elements marked.
pub open spec fn marked_page(o: Page, n: Page, headers: Seq<Seq<char>>, footers: Seq<Seq<char>>) -> bool {
    &&& n == Page { elements: n.elements, ..o }
    &&& n.elements@.len() == o.elements@.len()
    &&& forall|k: int|
        0 <= k < o.elements@.len() ==> #[trigger] marked_element(o.elements@[k], n.elements@[k], headers, footers)
}

fn contains_id(ids: &Vec<String>, id: &String) -> (r: bool)
    ensures
        r == crate::text::views(ids@).contains(id@),
{
    let mut i: usize = 0;
    while i < ids.len()
        invariant
            i <= ids@.len(),
            forall|k: int| 0 <= k < i ==> ids@[k]@ != id@,
        decreases ids@.len() - i,
    {
        if str_eq_exec(&ids[i], id) {
            assert(crate::text::views(ids@)[i as int] == id@);
            return true;
        }
        i = i + 1;
    }
    proof {
        if crate::text::views(ids@).contains(id@) {
            let k = choose|k: int| 0 <= k < ids@.len() && crate::text::views(ids@)[k] == id@;
            assert(ids@[k]@ == id@);
        }
    }
    false
}

fn mark_element(e: &mut Element, headers: &Vec<String>, footers: &Vec<String>)
    ensures
        marked_element(*old(e), *final(e), crate::text::views(headers@), crate::text::views(footers@)),
{
    if contains_id(headers, &e.element_id) {
        e.element_type = ElementType::Header;
        e.role = Some(to_owned_string("repeated_header"));
    }
    if contains_id(footers, &e.element_id) {
        let is_number = match &e.text {
            Some(t) => is_page_number_like(t.as_str()),
            None => false,
        };
        e.element_type = ElementType::Footer;
        e.role = Some(
            if is_number {
                to_owned_string("page_number")
            } else {
                to_owned_string("repeated_footer")
            },
        );
    }
}

/// Marks the detected headers and footers: their type becomes `Header` or `Footer`
/// and their role tells a repeated header, a page number or a repeated footer.
pub fn apply_header_footer_marks(pages: &mut Vec<Page>, result: &HeaderFooterDetectionResult)
    ensures
        final(pages)@.len() == old(pages)@.len(),
        forall|i: int|
            0 <= i < old(pages)@.len() ==> #[trigger] marked_page(
                old(pages)@[i],
                final(pages)@[i],
                crate::text::views(result.header_element_ids@),
                crate::text::views(result.footer_element_ids@),
            ),
{
    let ghost hs = crate::text::views(result.header_element_ids@);
    let ghost fs = crate::text::views(result.footer_element_ids@);
    let mut taken: Vec<Page> = Vec::new();
    std::mem::swap(&mut taken, pages);
    let ghost orig = taken@;
    let total: usize = taken.len();
    let mut out: Vec<Page> = Vec::new();
    let mut i: usize = 0;
    while taken.len() > 0
        invariant
            i + taken@.len() == orig.len(),
            orig.len() == total,
            hs == crate::text::views(result.header_element_ids@),
            fs == crate::text::views(result.footer_element_ids@),
            taken@ == orig.skip(i as int),
            out@.len() == i,
            forall|k: int| 0 <= k < i ==> #[trigger] marked_page(orig[k], out@[k], hs, fs),
        decreases taken@.len(),
    {
        let mut page = taken.remove(0);
        assert(page == orig[i as int]);
        let mut elems: Vec<Element> = Vec::new();
        std::mem::swap(&mut elems, &mut page.elements);
        let ghost orig_elems = elems@;
        let count: usize = elems.len();
        let mut done: Vec<Element> = Vec::new();
        let mut j: usize = 0;
        while elems.len() > 0
            invariant
                j + elems@.len() == orig_elems.len(),
                orig_elems.len() == count,
                hs == crate::text::views(result.header_element_ids@),
                fs == crate::text::views(result.footer_element_ids@),
                elems@ == orig_elems.skip(j as int),
                done@.len() == j,
                forall|k: int| 0 <= k < j ==> #[trigger] marked_element(orig_elems[k], done@[k], hs, fs),
            decreases elems@.len(),
        {
            let mut e = elems.remove(0);
            assert(e == orig_elems[j as int]);
            mark_element(&mut e, &result.header_element_ids, &result.footer_element_ids);
            done.push(e);
            j = j + 1;
            assert(orig_elems.skip(j as int) =~= orig_elems.skip(j - 1).drop_first());
        }
        page.elements = done;
        out.push(page);
        i = i + 1;
        assert(orig.skip(i as int) =~= orig.skip(i - 1).drop_first());
    }
    *pages = out;
}


proof fn lemma_marking_element_twice(o: Element, n1: Element, n2: Element, headers: Seq<Seq<char>>, footers: Seq<Seq<char>>)
    requires
        marked_element(o, n1, headers, footers),
        marked_element(n1, n2, headers, footers),
    ensures
        n2 == (Element { role: n2.role, ..n1 }),
        n2.role matches Some(r2) ==> n1.role matches Some(r1) && r2@ == r1@,
        n2.role.is_none() == n1.role.is_none(),
{
}

/// Marking is idempotent: marking pages that were already marked with the same
/// headers and footers changes nothing (each element keeps its type and the text
/// of its role, and everything else of the pages stays).
pub proof fn law_marking_twice_is_marking_once(
    pages: Seq<Page>,
    once: Seq<Page>,
    twice: Seq<Page>,
    headers: Seq<Seq<char>>,
    footers: Seq<Seq<char>>,
)
    requires
        once.len() == pages.len(),
        forall|i: int| 0 <= i < pages.len() ==> #[trigger] marked_page(pages[i], once[i], headers, footers),
        twice.len() == once.len(),
        forall|i: int| 0 <= i < once.len() ==> #[trigger] marked_page(once[i], twice[i], headers, footers),
    ensures
        forall|i: int|
            0 <= i < pages.len() ==> {
                &&& (#[trigger] twice[i]) == (Page { elements: twice[i].elements, ..once[i] })
                &&& twice[i].elements@.len() == once[i].elements@.len()
                &&& forall|k: int|
                    0 <= k < once[i].elements@.len() ==> {
                        &&& (#[trigger] twice[i].elements@[k]) == (Element { role: twice[i].elements@[k].role, ..once[i].elements@[k] })
                        &&& twice[i].elements@[k].role.is_none() == once[i].elements@[k].role.is_none()
                        &&& twice[i].elements@[k].role matches Some(r2) ==> once[i].elements@[k].role matches Some(r1) && r2@ == r1@
                    }
            },
{
    assert forall|i: int| 0 <= i < pages.len() implies {
        &&& (#[trigger] twice[i]) == (Page { elements: twice[i].elements, ..once[i] })
        &&& twice[i].elements@.len() == once[i].elements@.len()
        &&& forall|k: int|
            0 <= k < once[i].elements@.len() ==> {
                &&& (#[trigger] twice[i].elements@[k]) == (Element { role: twice[i].elements@[k].role, ..once[i].elements@[k] })
                &&& twice[i].elements@[k].role.is_none() == once[i].elements@[k].role.is_none()
                &&& twice[i].elements@[k].role matches Some(r2) ==> once[i].elements@[k].role matches Some(r1) && r2@ == r1@
            }
    } by {
        assert(marked_page(pages[i], once[i], headers, footers));
        assert(marked_page(once[i], twice[i], headers, footers));
        assert forall|k: int| 0 <= k < once[i].elements@.len() implies {
            &&& (#[trigger] twice[i].elements@[k]) == (Element { role: twice[i].elements@[k].role, ..once[i].elements@[k] })
            &&& twice[i].elements@[k].role.is_none() == once[i].elements@[k].role.is_none()
            &&& twice[i].elements@[k].role matches Some(r2) ==> once[i].elements@[k].role matches Some(r1) && r2@ == r1@
        } by {
            lemma_marking_element_twice(pages[i].elements@[k], once[i].elements@[k], twice[i].elements@[k], headers, footers);
        }
    }
}

} // verus!
