//! Reading order: the order in which a reader meets the elements of each page.
//!
//! Elements are read column by column (when a page has two text columns), top to
//! bottom, left to right; a caption then moves right behind the figure or table it
//! belongs to.

use vstd::prelude::*;
use crate::chunking::{
    concat_ids, document_chunks, kept_ids, kept_ids_elements, law_chunks_partition_elements,
    lemma_total_elements_prefix, total_elements,
};
use crate::classifier::chars_eq;
use crate::layout::types::LayoutRegion;
use crate::model::{BBox, Element, ElementType, Page};
use crate::text::{chars_of, lower_chars, lower_seq, seq_contains, str_contains, to_owned_string};

verus! {

#[derive(Debug)]
pub struct ReadingOrderOptions {
    pub strategy: String,
    pub multi_column: bool,
    pub header_footer_handling: String,
    /// Vertical tolerance, in permille of the page height.
    pub y_tolerance_permille: u32,
    /// The least gap between two text columns, in permille of the page width.
    pub column_gap_threshold_permille: u32,
}

impl Default for ReadingOrderOptions {
    fn default() -> (r: Self)
        ensures
            r.strategy@ == "layout_aware"@,
            r.multi_column,
            r.header_footer_handling@ == "mark"@,
            r.y_tolerance_permille == 20,
            r.column_gap_threshold_permille == 80,
    {
        ReadingOrderOptions {
            strategy: to_owned_string("layout_aware"),
            multi_column: true,
            header_footer_handling: to_owned_string("mark"),
            y_tolerance_permille: 20,
            column_gap_threshold_permille: 80,
        }
    }
}

/// Element types that read as running text.
pub open spec fn text_like(t: ElementType) -> bool {
    t == ElementType::Text || t == ElementType::TextOcr || t == ElementType::Heading || t
        == ElementType::Paragraph || t == ElementType::List || t == ElementType::ListItem || t
        == ElementType::Blockquote || t == ElementType::Code || t == ElementType::Caption || t
        == ElementType::Header || t == ElementType::Footer
}

/// A caption: by its type, or by a role that mentions `caption`.
pub open spec fn caption_like(e: Element) -> bool {
    e.element_type == ElementType::Caption || (e.role.is_some() && seq_contains(
        e.role.unwrap()@,
        "caption"@,
    ))
}

/// Element types that a caption can belong to.
pub open spec fn anchor_like(t: ElementType) -> bool {
    t == ElementType::Image || t == ElementType::Table || t == ElementType::Chart
}

pub open spec fn page_width(p: Page) -> int {
    match p.width {
        Some(w) => w as int,
        None => 1000,
    }
}

pub open spec fn page_height(p: Page) -> int {
    match p.height {
        Some(h) => h as int,
        None => 1400,
    }
}

/// The box `(x0, y0, x1, y1)` by which the element at `idx` is ordered: its own, or
/// else a full-width strip 20 units high at `20 * idx`.
pub open spec fn placed_box(e: Element, idx: int, width: int) -> (int, int, int, int) {
    match e.bbox {
        Some(b) => (b.x0 as int, b.y0 as int, b.x1 as int, b.y1 as int),
        None => (0, 20 * idx, width, 20 * idx + 20),
    }
}

/// The placed box's centre lies left of the page's middle.
pub open spec fn left_of_middle(e: Element, idx: int, width: int) -> bool {
    placed_box(e, idx, width).0 + placed_box(e, idx, width).2 < width
}

/// What the text-like elements tell of two columns: how many lie left and right
/// of the middle, the right edge of the left ones (at least 0) and the left edge
/// of the right ones.
pub struct ColumnStats {
    pub left: nat,
    pub right: nat,
    pub max_left: int,
    pub min_right: int,
}

pub open spec fn column_stats(es: Seq<Element>, width: int) -> ColumnStats
    decreases es.len(),
{
    if es.len() == 0 {
        ColumnStats { left: 0, right: 0, max_left: 0, min_right: 0 }
    } else {
        let s = column_stats(es.drop_last(), width);
        let i = es.len() - 1;
        let e = es.last();
        let b = placed_box(e, i, width);
        if !text_like(e.element_type) {
            s
        } else if left_of_middle(e, i, width) {
            ColumnStats {
                left: s.left + 1,
                max_left: if b.2 > s.max_left {
                    b.2
                } else {
                    s.max_left
                },
                ..s
            }
        } else {
            ColumnStats {
                right: s.right + 1,
                min_right: if s.right == 0 || b.0 < s.min_right {
                    b.0
                } else {
                    s.min_right
                },
                ..s
            }
        }
    }
}

/// The page reads in two columns: at least two text-like elements on each side of
/// the middle, parted by a gap of at least `gap_permille` of the width.
pub open spec fn two_columns(es: Seq<Element>, width: int, multi_column: bool, gap_permille: int) -> bool {
    let s = column_stats(es, width);
    multi_column && s.left >= 2 && s.right >= 2 && 1000 * (s.min_right - s.max_left) >= width
        * gap_permille
}

/// The column of the element at `i`: 1 for a text-like element right of the middle
/// of a two-column page, else 0.
pub open spec fn column_of(es: Seq<Element>, i: int, width: int, two: bool) -> int {
    if two && text_like(es[i].element_type) && !left_of_middle(es[i], i, width) {
        1
    } else {
        0
    }
}

/// The order of the sort: by column, then top edge, then left edge, then by the
/// original position (the sort is stable).
pub open spec fn key_lt(es: Seq<Element>, width: int, two: bool, a: int, b: int) -> bool {
    let ca = column_of(es, a, width, two);
    let cb = column_of(es, b, width, two);
    let ya = placed_box(es[a], a, width).1;
    let yb = placed_box(es[b], b, width).1;
    let xa = placed_box(es[a], a, width).0;
    let xb = placed_box(es[b], b, width).0;
    ca < cb || (ca == cb && (ya < yb || (ya == yb && (xa < xb || (xa == xb && a < b)))))
}

/// `ord` lists the positions of `es` in the order of the sort.
pub open spec fn sorted_order(es: Seq<Element>, width: int, two: bool, ord: Seq<usize>) -> bool {
    &&& ord.len() == es.len()
    &&& forall|k: int| 0 <= k < ord.len() ==> #[trigger] ord[k] < es.len()
    &&& forall|i: int, j: int|
        0 <= i < j < ord.len() ==> key_lt(es, width, two, #[trigger] ord[i] as int, #[trigger] ord[j] as int)
}

/// `ord` lists each position below `n` exactly once.
pub open spec fn is_perm(ord: Seq<usize>, n: nat) -> bool {
    &&& ord.len() == n
    &&& forall|k: int| 0 <= k < ord.len() ==> #[trigger] ord[k] < n
    &&& forall|i: int, j: int| 0 <= i < j < ord.len() ==> #[trigger] ord[i] != #[trigger] ord[j]
}

pub open spec fn abs_diff(a: int, b: int) -> int {
    if a >= b {
        a - b
    } else {
        b - a
    }
}

/// The horizontal extents of two boxes overlap by more than nothing.
pub open spec fn x_overlaps(a: BBox, b: BBox) -> bool {
    a.x1 > a.x0 && a.x1 > b.x0 && b.x1 > a.x0 && b.x1 > b.x0
}

/// Among the first `upto` entries of `ord`, the figure, table or chart whose bottom
/// edge lies nearest the caption's top edge, overlapping it horizontally: its
/// position and that distance (the first such on a tie).
pub open spec fn best_anchor(es: Seq<Element>, ord: Seq<usize>, upto: nat, cb: BBox) -> Option<(int, int)>
    decreases upto,
{
    if upto == 0 {
        None
    } else {
        let prev = best_anchor(es, ord, (upto - 1) as nat, cb);
        let a = es[ord[upto - 1] as int];
        match a.bbox {
            Some(ab) => {
                let dy = abs_diff(cb.y0 as int, ab.y1 as int);
                if anchor_like(a.element_type) && x_overlaps(cb, ab) && (prev.is_none() || dy
                    < prev.unwrap().1) {
                    Some(((upto - 1) as int, dy))
                } else {
                    prev
                }
            },
            None => prev,
        }
    }
}

/// The entry at position `k`, if it is a caption with a box, moves right behind its
/// best anchor when that is not already where it stands and lies within a tenth
/// of the page height.
pub open spec fn caption_step(es: Seq<Element>, ord: Seq<usize>, k: int, height: int) -> Seq<usize> {
    let ci = ord[k];
    let c = es[ci as int];
    if caption_like(c) && c.bbox.is_some() {
        match best_anchor(es, ord, k as nat, c.bbox.unwrap()) {
            Some(best) => if best.0 + 1 != k && 10 * best.1 <= height {
                ord.remove(k).insert(best.0 + 1, ci)
            } else {
                ord
            },
            None => ord,
        }
    } else {
        ord
    }
}

/// The caption steps for positions `k`, `k + 1`, ... in turn.
pub open spec fn caption_pass(es: Seq<Element>, ord: Seq<usize>, k: nat, height: int) -> Seq<usize>
    decreases ord.len() - k,
{
    if k >= ord.len() {
        ord
    } else {
        let next = caption_step(es, ord, k as int, height);
        if next.len() == ord.len() {
            caption_pass(es, next, k + 1, height)
        } else {
            ord
        }
    }
}

/// The element at position `k` of the page's new order, when global numbering
/// starts at `g` for the page; headers and footers are left out of the chunks on
/// request.
pub open spec fn numbered(e: Element, k: int, g: int, exclude: bool) -> Element {
    Element {
        reading_order: Some((k + 1) as u32),
        global_order: Some((g + k) as u32),
        exclude_from_chunks: e.exclude_from_chunks || (exclude && (e.element_type
            == ElementType::Header || e.element_type == ElementType::Footer)),
        ..e
    }
}

/// `n` is the page `o` with its elements put in the order `ord` and numbered.
pub open spec fn ordered_page(o: Page, n: Page, ord: Seq<usize>, g: int, exclude: bool) -> bool {
    &&& n == Page { elements: n.elements, ..o }
    &&& n.elements@.len() == ord.len()
    &&& forall|k: int|
        0 <= k < ord.len() ==> #[trigger] n.elements@[k] == numbered(
            o.elements@[ord[k] as int],
            k,
            g,
            exclude,
        )
}

pub open spec fn identity(n: nat) -> Seq<usize> {
    Seq::new(n, |i: int| i as usize)
}

/// The strategy `natural`, in any ASCII case.
pub open spec fn is_natural(strategy: Seq<char>) -> bool {
    lower_seq(strategy) == "natural"@
}

/// What the reading order makes of page `o`, whose numbering starts at `g`.
pub open spec fn reordered_page(o: Page, n: Page, g: int, options: ReadingOrderOptions) -> bool {
    if is_natural(options.strategy@) {
        ordered_page(o, n, identity(o.elements@.len()), g, false)
    } else {
        let es = o.elements@;
        let two = two_columns(
            es,
            page_width(o),
            options.multi_column,
            options.column_gap_threshold_permille as int,
        );
        exists|ord: Seq<usize>|
            #![trigger sorted_order(es, page_width(o), two, ord)]
            sorted_order(es, page_width(o), two, ord) && ordered_page(
                o,
                n,
                caption_pass(es, ord, 0, page_height(o)),
                g,
                options.header_footer_handling@ == "exclude_from_chunks"@,
            )
    }
}

proof fn lemma_key_total(es: Seq<Element>, width: int, two: bool, a: int, b: int)
    ensures
        a != b ==> key_lt(es, width, two, a, b) || key_lt(es, width, two, b, a),
        !key_lt(es, width, two, a, a),
{
}

proof fn lemma_key_trans(es: Seq<Element>, width: int, two: bool, a: int, b: int, c: int)
    requires
        key_lt(es, width, two, a, b),
        key_lt(es, width, two, b, c),
    ensures
        key_lt(es, width, two, a, c),
{
}

proof fn lemma_sorted_is_perm(es: Seq<Element>, width: int, two: bool, ord: Seq<usize>)
    requires
        sorted_order(es, width, two, ord),
    ensures
        is_perm(ord, es.len()),
{
    assert forall|i: int, j: int| 0 <= i < j < ord.len() implies #[trigger] ord[i] != #[trigger] ord[j] by {
        lemma_key_total(es, width, two, ord[i] as int, ord[i] as int);
    }
}

proof fn lemma_best_anchor_before(es: Seq<Element>, ord: Seq<usize>, upto: nat, cb: BBox)
    ensures
        best_anchor(es, ord, upto, cb) matches Some(b) ==> 0 <= b.0 < upto,
    decreases upto,
{
    if upto > 0 {
        lemma_best_anchor_before(es, ord, (upto - 1) as nat, cb);
    }
}

proof fn lemma_move_keeps_perm(ord: Seq<usize>, n: nat, k: int, p: int)
    requires
        is_perm(ord, n),
        0 <= p <= k < ord.len(),
    ensures
        is_perm(ord.remove(k).insert(p, ord[k]), n),
{
    let r = ord.remove(k);
    let s = r.insert(p, ord[k]);
    assert(s.len() == n);
    // the position in `ord` that each entry of `s` comes from
    let src = |t: int|
        if t < p {
            t
        } else if t == p {
            k
        } else if t <= k {
            t - 1
        } else {
            t
        };
    assert forall|t: int| 0 <= t < s.len() implies #[trigger] s[t] == ord[src(t)] && 0 <= src(t)
        < ord.len() by {
        if t < p {
        } else if t == p {
        } else {
            assert(s[t] == r[t - 1]);
        }
    }
    assert forall|k2: int| 0 <= k2 < s.len() implies #[trigger] s[k2] < n by {
        assert(s[k2] == ord[src(k2)]);
    }
    assert forall|i: int, j: int| 0 <= i < j < s.len() implies #[trigger] s[i] != #[trigger] s[j] by {
        assert(s[i] == ord[src(i)]);
        assert(s[j] == ord[src(j)]);
        assert(src(i) != src(j));
        if src(i) < src(j) {
            assert(ord[src(i)] != ord[src(j)]);
        } else {
            assert(ord[src(j)] != ord[src(i)]);
        }
    }
}

proof fn lemma_step_keeps_perm(es: Seq<Element>, ord: Seq<usize>, k: int, height: int)
    requires
        is_perm(ord, es.len()),
        0 <= k < ord.len(),
    ensures
        is_perm(caption_step(es, ord, k, height), es.len()),
{
    let ci = ord[k];
    let c = es[ci as int];
    if caption_like(c) && c.bbox.is_some() {
        lemma_best_anchor_before(es, ord, k as nat, c.bbox.unwrap());
        match best_anchor(es, ord, k as nat, c.bbox.unwrap()) {
            Some(best) => if best.0 + 1 != k && 10 * best.1 <= height {
                lemma_move_keeps_perm(ord, es.len(), k, best.0 + 1);
            },
            None => {},
        }
    }
}

proof fn lemma_pass_keeps_perm(es: Seq<Element>, ord: Seq<usize>, k: nat, height: int)
    requires
        is_perm(ord, es.len()),
    ensures
        is_perm(caption_pass(es, ord, k, height), es.len()),
    decreases ord.len() - k,
{
    if k < ord.len() {
        lemma_step_keeps_perm(es, ord, k as int, height);
        let next = caption_step(es, ord, k as int, height);
        lemma_pass_keeps_perm(es, next, k + 1, height);
    }
}

/// Whatever the page, the layout-aware order lists every element of the page
/// exactly once: moving captions never loses or repeats an element.
pub proof fn law_layout_order_is_permutation(
    es: Seq<Element>,
    width: int,
    two: bool,
    ord: Seq<usize>,
    height: int,
)
    requires
        sorted_order(es, width, two, ord),
    ensures
        is_perm(caption_pass(es, ord, 0, height), es.len()),
{
    lemma_sorted_is_perm(es, width, two, ord);
    lemma_pass_keeps_perm(es, ord, 0, height);
}

/// The element at `i` is text-like and its placed box's centre lies left of the
/// middle of a page `width` wide.
pub open spec fn text_left_at(es: Seq<Element>, i: int, width: int) -> bool {
    text_like(es[i].element_type) && placed_box(es[i], i, width).0 + placed_box(es[i], i, width).2
        < width
}

/// The element at `i` is text-like and its placed box's centre lies at or right
/// of the middle.
pub open spec fn text_right_at(es: Seq<Element>, i: int, width: int) -> bool {
    text_like(es[i].element_type) && placed_box(es[i], i, width).0 + placed_box(es[i], i, width).2
        >= width
}

proof fn lemma_column_stats(es: Seq<Element>, width: int)
    ensures
        column_stats(es, width).left >= 1 <==> exists|i: int|
            0 <= i < es.len() && #[trigger] text_left_at(es, i, width),
        column_stats(es, width).left >= 2 <==> exists|i: int, j: int|
            0 <= i < j < es.len() && #[trigger] text_left_at(es, i, width)
                && #[trigger] text_left_at(es, j, width),
        column_stats(es, width).right >= 1 <==> exists|i: int|
            0 <= i < es.len() && #[trigger] text_right_at(es, i, width),
        column_stats(es, width).right >= 2 <==> exists|i: int, j: int|
            0 <= i < j < es.len() && #[trigger] text_right_at(es, i, width)
                && #[trigger] text_right_at(es, j, width),
        column_stats(es, width).max_left >= 0,
        forall|i: int|
            0 <= i < es.len() && #[trigger] text_left_at(es, i, width) ==> placed_box(es[i], i, width).2
                <= column_stats(es, width).max_left,
        column_stats(es, width).max_left == 0 || exists|i: int|
            0 <= i < es.len() && #[trigger] text_left_at(es, i, width) && placed_box(es[i], i, width).2
                == column_stats(es, width).max_left,
        forall|i: int|
            0 <= i < es.len() && #[trigger] text_right_at(es, i, width) ==> placed_box(es[i], i, width).0
                >= column_stats(es, width).min_right,
        column_stats(es, width).right >= 1 ==> exists|i: int|
            0 <= i < es.len() && #[trigger] text_right_at(es, i, width) && placed_box(es[i], i, width).0
                == column_stats(es, width).min_right,
    decreases es.len(),
{
    if es.len() > 0 {
        let p = es.drop_last();
        lemma_column_stats(p, width);
        let n = es.len() - 1;
        assert forall|i: int| 0 <= i < n implies text_left_at(p, i, width) == text_left_at(es, i, width)
            && text_right_at(p, i, width) == text_right_at(es, i, width) && placed_box(p[i], i, width)
            == placed_box(es[i], i, width) by {
            assert(p[i] == es[i]);
        }
        assert(es.last() == es[n]);
        let ps = column_stats(p, width);
        let e = es.last();
        assert(text_left_at(es, n, width) == (text_like(e.element_type) && left_of_middle(e, n, width)));
        assert(text_right_at(es, n, width) == (text_like(e.element_type) && !left_of_middle(e, n, width)));
        if text_left_at(es, n, width) && ps.left >= 1 {
            let i = choose|i: int| 0 <= i < p.len() && #[trigger] text_left_at(p, i, width);
            assert(text_left_at(es, i, width) && text_left_at(es, n, width));
        }
        if text_right_at(es, n, width) && ps.right >= 1 {
            let i = choose|i: int| 0 <= i < p.len() && #[trigger] text_right_at(p, i, width);
            assert(text_right_at(es, i, width) && text_right_at(es, n, width));
        }
        if ps.left >= 1 {
            let i = choose|i: int| 0 <= i < p.len() && #[trigger] text_left_at(p, i, width);
            assert(text_left_at(es, i, width));
        }
        if ps.left >= 2 {
            let (i, j) = choose|i: int, j: int|
                0 <= i < j < p.len() && #[trigger] text_left_at(p, i, width) && #[trigger] text_left_at(p, j, width);
            assert(text_left_at(es, i, width) && text_left_at(es, j, width));
        }
        if ps.right >= 1 {
            let i = choose|i: int| 0 <= i < p.len() && #[trigger] text_right_at(p, i, width);
            assert(text_right_at(es, i, width));
        }
        if ps.right >= 2 {
            let (i, j) = choose|i: int, j: int|
                0 <= i < j < p.len() && #[trigger] text_right_at(p, i, width) && #[trigger] text_right_at(p, j, width);
            assert(text_right_at(es, i, width) && text_right_at(es, j, width));
        }
        if ps.max_left != 0 {
            let i = choose|i: int|
                0 <= i < p.len() && #[trigger] text_left_at(p, i, width) && placed_box(p[i], i, width).2
                    == ps.max_left;
            assert(text_left_at(es, i, width));
        }
        if ps.right >= 1 {
            let i = choose|i: int|
                0 <= i < p.len() && #[trigger] text_right_at(p, i, width) && placed_box(p[i], i, width).0
                    == ps.min_right;
            assert(text_right_at(es, i, width));
        }
        let s = column_stats(es, width);
        if exists|i: int| 0 <= i < es.len() && #[trigger] text_left_at(es, i, width) {
            let i = choose|i: int| 0 <= i < es.len() && #[trigger] text_left_at(es, i, width);
            if i < n {
                assert(text_left_at(p, i, width));
            }
        }
        if exists|i: int, j: int|
            0 <= i < j < es.len() && #[trigger] text_left_at(es, i, width) && #[trigger] text_left_at(es, j, width) {
            let (i, j) = choose|i: int, j: int|
                0 <= i < j < es.len() && #[trigger] text_left_at(es, i, width) && #[trigger] text_left_at(es, j, width);
            assert(text_left_at(p, i, width));
            if j < n {
                assert(text_left_at(p, j, width));
            }
        }
        if exists|i: int| 0 <= i < es.len() && #[trigger] text_right_at(es, i, width) {
            let i = choose|i: int| 0 <= i < es.len() && #[trigger] text_right_at(es, i, width);
            if i < n {
                assert(text_right_at(p, i, width));
            }
        }
        if exists|i: int, j: int|
            0 <= i < j < es.len() && #[trigger] text_right_at(es, i, width) && #[trigger] text_right_at(es, j, width) {
            let (i, j) = choose|i: int, j: int|
                0 <= i < j < es.len() && #[trigger] text_right_at(es, i, width) && #[trigger] text_right_at(es, j, width);
            assert(text_right_at(p, i, width));
            if j < n {
                assert(text_right_at(p, j, width));
            }
        }
        assert forall|i: int|
            0 <= i < es.len() && #[trigger] text_left_at(es, i, width) implies placed_box(es[i], i, width).2
            <= s.max_left by {
            if i < n {
                assert(text_left_at(p, i, width));
            }
        }
        assert forall|i: int|
            0 <= i < es.len() && #[trigger] text_right_at(es, i, width) implies placed_box(es[i], i, width).0
            >= s.min_right by {
            if i < n {
                assert(text_right_at(p, i, width));
            }
        }
    }
}

/// When a page is judged to have two columns: exactly when multi-column reading is
/// on, at least two text-like elements lie left of the middle and two right of
/// it, and between every such left element and every such right one lies a gap
/// of at least `gap_permille` of the width (measured from the left element's right
/// edge, taken as 0 when it lies left of the page, to the right element's left
/// edge). Elements without a box count by the full-width strip they are placed in.
pub proof fn law_two_column_judgement(es: Seq<Element>, width: int, multi_column: bool, gap_permille: int)
    ensures
        two_columns(es, width, multi_column, gap_permille) <==> multi_column && (exists|i: int, j: int|
            0 <= i < j < es.len() && #[trigger] text_left_at(es, i, width) && #[trigger] text_left_at(es, j, width))
            && (exists|i: int, j: int|
            0 <= i < j < es.len() && #[trigger] text_right_at(es, i, width) && #[trigger] text_right_at(es, j, width))
            && (forall|i: int, j: int|
            0 <= i < es.len() && 0 <= j < es.len() && #[trigger] text_left_at(es, i, width)
                && #[trigger] text_right_at(es, j, width) ==> 1000 * (placed_box(es[j], j, width).0 - (
            if placed_box(es[i], i, width).2 > 0 {
                placed_box(es[i], i, width).2
            } else {
                0
            })) >= width * gap_permille),
{
    lemma_column_stats(es, width);
    let s = column_stats(es, width);
    let wg = width * gap_permille;
    if s.left >= 2 && s.right >= 2 {
        let jr = choose|i: int|
            0 <= i < es.len() && #[trigger] text_right_at(es, i, width) && placed_box(es[i], i, width).0
                == s.min_right;
        if 1000 * (s.min_right - s.max_left) >= wg {
            assert forall|i: int, j: int|
                0 <= i < es.len() && 0 <= j < es.len() && #[trigger] text_left_at(es, i, width)
                    && #[trigger] text_right_at(es, j, width) implies 1000 * (placed_box(es[j], j, width).0 - (
                if placed_box(es[i], i, width).2 > 0 {
                    placed_box(es[i], i, width).2
                } else {
                    0
                })) >= wg by {}
        } else {
            let il = if s.max_left == 0 {
                choose|i: int| 0 <= i < es.len() && #[trigger] text_left_at(es, i, width)
            } else {
                choose|i: int|
                    0 <= i < es.len() && #[trigger] text_left_at(es, i, width) && placed_box(es[i], i, width).2
                        == s.max_left
            };
            assert(text_left_at(es, il, width) && text_right_at(es, jr, width));
            assert(1000 * (placed_box(es[jr], jr, width).0 - (if placed_box(es[il], il, width).2 > 0 {
                placed_box(es[il], il, width).2
            } else {
                0
            })) < wg);
        }
    }
}

proof fn lemma_best_anchor_found(es: Seq<Element>, ord: Seq<usize>, upto: nat, cb: BBox)
    requires
        upto <= ord.len(),
    ensures
        best_anchor(es, ord, upto, cb) matches Some(b) ==> ({
            let a = es[ord[b.0] as int];
            &&& anchor_like(a.element_type)
            &&& a.bbox.is_some()
            &&& x_overlaps(cb, a.bbox.unwrap())
            &&& b.1 == abs_diff(cb.y0 as int, a.bbox.unwrap().y1 as int)
        }),
    decreases upto,
{
    if upto > 0 {
        lemma_best_anchor_found(es, ord, (upto - 1) as nat, cb);
    }
}

/// A caption moves only behind its figure: when the caption step at position `k`
/// changes the order, the entry there was a caption with a box, and it now stands
/// right behind a figure, table or chart that came before it, whose box overlaps
/// the caption's horizontally and whose bottom edge lies within a tenth of the page
/// height of the caption's top edge; the entries before that figure keep their
/// places.
pub proof fn law_captions_move_behind_their_figures(
    es: Seq<Element>,
    ord: Seq<usize>,
    k: int,
    height: int,
)
    requires
        0 <= k < ord.len(),
    ensures
        caption_step(es, ord, k, height).len() == ord.len(),
        caption_step(es, ord, k, height) != ord ==> caption_like(es[ord[k] as int]) && es[ord[k] as int].bbox.is_some()
            && exists|t: int|
            1 <= t < k && #[trigger] caption_step(es, ord, k, height)[t] == ord[k] && ({
                let s = caption_step(es, ord, k, height);
                let cb = es[ord[k] as int].bbox.unwrap();
                let a = es[s[t - 1] as int];
                &&& s[t - 1] == ord[t - 1]
                &&& anchor_like(a.element_type)
                &&& a.bbox.is_some()
                &&& x_overlaps(cb, a.bbox.unwrap())
                &&& 10 * abs_diff(cb.y0 as int, a.bbox.unwrap().y1 as int) <= height
                &&& forall|u: int| 0 <= u < t - 1 ==> #[trigger] s[u] == ord[u]
            }),
{
    let ci = ord[k];
    let c = es[ci as int];
    if caption_like(c) && c.bbox.is_some() {
        lemma_best_anchor_before(es, ord, k as nat, c.bbox.unwrap());
        lemma_best_anchor_found(es, ord, k as nat, c.bbox.unwrap());
        match best_anchor(es, ord, k as nat, c.bbox.unwrap()) {
            Some(best) => if best.0 + 1 != k && 10 * best.1 <= height {
                let s = ord.remove(k).insert(best.0 + 1, ci);
                let t = best.0 + 1;
                assert(s[t] == ci);
                assert(s[t - 1] == ord[t - 1]);
                assert forall|u: int| 0 <= u < t - 1 implies #[trigger] s[u] == ord[u] by {}
            },
            None => {},
        }
    }
}

/// Every two entries of `s` that are not captions stand in the order of the sort.
pub open spec fn non_captions_sorted(es: Seq<Element>, width: int, two: bool, s: Seq<usize>) -> bool {
    forall|i: int, j: int|
        0 <= i < j < s.len() && !caption_like(es[s[i] as int]) && !caption_like(es[s[j] as int])
            ==> key_lt(es, width, two, #[trigger] s[i] as int, #[trigger] s[j] as int)
}

proof fn lemma_move_caption_keeps_order(
    es: Seq<Element>,
    width: int,
    two: bool,
    ord: Seq<usize>,
    k: int,
    p: int,
)
    requires
        non_captions_sorted(es, width, two, ord),
        0 <= p < k < ord.len(),
        caption_like(es[ord[k] as int]),
    ensures
        non_captions_sorted(es, width, two, ord.remove(k).insert(p, ord[k])),
{
    let r = ord.remove(k);
    let s = r.insert(p, ord[k]);
    // the position in `ord` that each entry of `s` comes from
    let src = |t: int|
        if t < p {
            t
        } else if t == p {
            k
        } else if t <= k {
            t - 1
        } else {
            t
        };
    assert forall|t: int| 0 <= t < s.len() implies #[trigger] s[t] == ord[src(t)] && 0 <= src(t)
        < ord.len() by {
        if t < p {
        } else if t == p {
        } else {
            assert(s[t] == r[t - 1]);
        }
    }
    assert forall|i: int, j: int|
        0 <= i < j < s.len() && !caption_like(es[s[i] as int]) && !caption_like(es[s[j] as int])
            implies key_lt(es, width, two, #[trigger] s[i] as int, #[trigger] s[j] as int) by {
        assert(s[i] == ord[src(i)]);
        assert(s[j] == ord[src(j)]);
        assert(i != p && j != p);
        assert(src(i) < src(j));
        assert(!caption_like(es[ord[src(i)] as int]) && !caption_like(es[ord[src(j)] as int]));
    }
}

proof fn lemma_step_keeps_order(
    es: Seq<Element>,
    width: int,
    two: bool,
    ord: Seq<usize>,
    k: int,
    height: int,
)
    requires
        non_captions_sorted(es, width, two, ord),
        0 <= k < ord.len(),
    ensures
        non_captions_sorted(es, width, two, caption_step(es, ord, k, height)),
{
    let ci = ord[k];
    let c = es[ci as int];
    if caption_like(c) && c.bbox.is_some() {
        lemma_best_anchor_before(es, ord, k as nat, c.bbox.unwrap());
        match best_anchor(es, ord, k as nat, c.bbox.unwrap()) {
            Some(best) => if best.0 + 1 != k && 10 * best.1 <= height {
                lemma_move_caption_keeps_order(es, width, two, ord, k, best.0 + 1);
            },
            None => {},
        }
    }
}

proof fn lemma_pass_keeps_order(
    es: Seq<Element>,
    width: int,
    two: bool,
    ord: Seq<usize>,
    k: nat,
    height: int,
)
    requires
        non_captions_sorted(es, width, two, ord),
    ensures
        non_captions_sorted(es, width, two, caption_pass(es, ord, k, height)),
    decreases ord.len() - k,
{
    if k < ord.len() {
        lemma_step_keeps_order(es, width, two, ord, k as int, height);
        let next = caption_step(es, ord, k as int, height);
        if next.len() == ord.len() {
            lemma_pass_keeps_order(es, width, two, next, k + 1, height);
        }
    }
}

/// A text-like element whose box's centre lies at or right of the middle of a
/// page `width` wide.
pub open spec fn right_of_middle(e: Element, width: int) -> bool {
    text_like(e.element_type) && e.bbox.unwrap().x0 + e.bbox.unwrap().x1 >= width
}

/// In the layout-aware order of a page, elements that are not captions and have a
/// box are read column by column, then top to bottom: on a page judged to have
/// two columns, no text-like element right of the middle comes before a
/// text-like element left of it (the whole left column is read before the right
/// one); and of two such elements in the same column, the one read first does
/// not start lower on the page, nor, at the same height, further right. Captions are left out: they move behind the
/// figure, table or chart they belong to.
pub proof fn law_two_columns_read_one_after_the_other(
    o: Page,
    n: Page,
    g: int,
    options: ReadingOrderOptions,
)
    requires
        reordered_page(o, n, g, options),
        !is_natural(options.strategy@),
    ensures
        forall|p: int, q: int|
            0 <= p < q < n.elements@.len() && !caption_like(#[trigger] n.elements@[p])
                && !caption_like(#[trigger] n.elements@[q]) && n.elements@[p].bbox.is_some()
                && n.elements@[q].bbox.is_some() && two_columns(
                o.elements@,
                page_width(o),
                options.multi_column,
                options.column_gap_threshold_permille as int,
            ) && text_like(n.elements@[p].element_type) && text_like(n.elements@[q].element_type)
                && n.elements@[q].bbox.unwrap().x0 + n.elements@[q].bbox.unwrap().x1 < page_width(o)
                ==> n.elements@[p].bbox.unwrap().x0 + n.elements@[p].bbox.unwrap().x1 < page_width(o),
        forall|p: int, q: int|
            0 <= p < q < n.elements@.len() && !caption_like(#[trigger] n.elements@[p])
                && !caption_like(#[trigger] n.elements@[q]) && n.elements@[p].bbox.is_some()
                && n.elements@[q].bbox.is_some() && (!two_columns(
                o.elements@,
                page_width(o),
                options.multi_column,
                options.column_gap_threshold_permille as int,
            ) || right_of_middle(n.elements@[p], page_width(o)) == right_of_middle(
                n.elements@[q],
                page_width(o),
            )) ==> n.elements@[p].bbox.unwrap().y0 <= n.elements@[q].bbox.unwrap().y0 && (
            n.elements@[p].bbox.unwrap().y0 == n.elements@[q].bbox.unwrap().y0 ==> n.elements@[p].bbox.unwrap().x0
                <= n.elements@[q].bbox.unwrap().x0),
{
    let es = o.elements@;
    let w = page_width(o);
    let two = two_columns(es, w, options.multi_column, options.column_gap_threshold_permille as int);
    let excl = options.header_footer_handling@ == "exclude_from_chunks"@;
    let ord = choose|ord: Seq<usize>|
        #![trigger sorted_order(es, page_width(o), two, ord)]
        sorted_order(es, page_width(o), two, ord) && ordered_page(
            o,
            n,
            caption_pass(es, ord, 0, page_height(o)),
            g,
            excl,
        );
    let fin = caption_pass(es, ord, 0, page_height(o));
    lemma_sorted_is_perm(es, w, two, ord);
    lemma_pass_keeps_perm(es, ord, 0, page_height(o));
    assert(non_captions_sorted(es, w, two, ord));
    lemma_pass_keeps_order(es, w, two, ord, 0, page_height(o));
    assert forall|p: int, q: int|
        0 <= p < q < n.elements@.len() && !caption_like(#[trigger] n.elements@[p])
            && !caption_like(#[trigger] n.elements@[q]) && n.elements@[p].bbox.is_some()
            && n.elements@[q].bbox.is_some() implies key_lt(es, w, two, fin[p] as int, fin[q] as int)
        && column_of(es, fin[p] as int, w, two) == (if two && right_of_middle(n.elements@[p], w) {
        1int
    } else {
        0int
    }) && column_of(es, fin[q] as int, w, two) == (if two && right_of_middle(n.elements@[q], w) {
        1int
    } else {
        0int
    }) && placed_box(es[fin[p] as int], fin[p] as int, w).1 == n.elements@[p].bbox.unwrap().y0
        && placed_box(es[fin[q] as int], fin[q] as int, w).1 == n.elements@[q].bbox.unwrap().y0
        && placed_box(es[fin[p] as int], fin[p] as int, w).0 == n.elements@[p].bbox.unwrap().x0
        && placed_box(es[fin[q] as int], fin[q] as int, w).0 == n.elements@[q].bbox.unwrap().x0 by {
        assert(n.elements@[p] == numbered(es[fin[p] as int], p, g, excl));
        assert(n.elements@[q] == numbered(es[fin[q] as int], q, g, excl));
        assert(fin[p] < es.len() && fin[q] < es.len());
    }
}

/// Reordering a page keeps its elements and only renumbers them: the new page
/// lists each element of the old one exactly once (with the same identifier,
/// type, text and box), its reading orders run 1, 2, 3, ... in the new order, its
/// global orders run on from the number `g` at which the page starts, and nothing
/// else of the page changes.
pub proof fn law_reordering_keeps_elements(o: Page, n: Page, g: int, options: ReadingOrderOptions)
    requires
        reordered_page(o, n, g, options),
    ensures
        n == (Page { elements: n.elements, ..o }),
        n.elements@.len() == o.elements@.len(),
        forall|k: int|
            0 <= k < n.elements@.len() ==> (#[trigger] n.elements@[k]).reading_order == Some(
                (k + 1) as u32,
            ) && n.elements@[k].global_order == Some((g + k) as u32),
        exists|ord: Seq<usize>|
            is_perm(ord, o.elements@.len()) && forall|k: int|
                0 <= k < n.elements@.len() ==> (#[trigger] n.elements@[k]).element_id
                    == o.elements@[ord[k] as int].element_id && n.elements@[k].element_type
                    == o.elements@[ord[k] as int].element_type && n.elements@[k].text
                    == o.elements@[ord[k] as int].text && n.elements@[k].bbox
                    == o.elements@[ord[k] as int].bbox,
{
    let es = o.elements@;
    let excl = options.header_footer_handling@ == "exclude_from_chunks"@;
    let fin = if is_natural(options.strategy@) {
        identity(es.len())
    } else {
        let two = two_columns(
            es,
            page_width(o),
            options.multi_column,
            options.column_gap_threshold_permille as int,
        );
        let ord = choose|ord: Seq<usize>|
            #![trigger sorted_order(es, page_width(o), two, ord)]
            sorted_order(es, page_width(o), two, ord) && ordered_page(
                o,
                n,
                caption_pass(es, ord, 0, page_height(o)),
                g,
                excl,
            );
        law_layout_order_is_permutation(es, page_width(o), two, ord, page_height(o));
        caption_pass(es, ord, 0, page_height(o))
    };
    let x = if is_natural(options.strategy@) {
        false
    } else {
        excl
    };
    assert(ordered_page(o, n, fin, g, x));
    if is_natural(options.strategy@) {
        assert(es.len() == o.elements.len());
        assert forall|i: int, j: int| 0 <= i < j < fin.len() implies #[trigger] fin[i]
            != #[trigger] fin[j] by {
            assert(fin[i] == i && fin[j] == j);
        }
    }
    assert(is_perm(fin, es.len()));
    assert forall|k: int| 0 <= k < n.elements@.len() implies (#[trigger] n.elements@[k]).element_id
        == o.elements@[fin[k] as int].element_id && n.elements@[k].element_type
        == o.elements@[fin[k] as int].element_type && n.elements@[k].text
        == o.elements@[fin[k] as int].text && n.elements@[k].bbox
        == o.elements@[fin[k] as int].bbox && n.elements@[k].reading_order == Some((k + 1) as u32)
        && n.elements@[k].global_order == Some((g + k) as u32) by {
        assert(n.elements@[k] == numbered(es[fin[k] as int], k, g, x));
    }
}

pub open spec fn fits_i64(v: int) -> bool {
    -0x8000_0000_0000_0000 <= v < 0x8000_0000_0000_0000
}

fn placed_box_exec(e: &Element, idx: usize, width: i128) -> (b: (i128, i128, i128, i128))
    requires
        fits_i64(width as int),
    ensures
        b.0 == placed_box(*e, idx as int, width as int).0,
        b.1 == placed_box(*e, idx as int, width as int).1,
        b.2 == placed_box(*e, idx as int, width as int).2,
        b.3 == placed_box(*e, idx as int, width as int).3,
        fits_i64(b.0 as int),
        fits_i64(b.2 as int),
        b.1 < 0x1_0000_0000_0000_0000_0000,
        b.1 > -0x1_0000_0000_0000_0000_0000,
{
    match e.bbox {
        Some(bb) => (bb.x0 as i128, bb.y0 as i128, bb.x1 as i128, bb.y1 as i128),
        None => {
            let y = 20 * (idx as i128);
            (0, y, width, y + 20)
        },
    }
}

fn is_text_like(t: ElementType) -> (r: bool)
    ensures
        r == text_like(t),
{
    match t {
        ElementType::Text | ElementType::TextOcr | ElementType::Heading | ElementType::Paragraph
        | ElementType::List | ElementType::ListItem | ElementType::Blockquote | ElementType::Code
        | ElementType::Caption | ElementType::Header | ElementType::Footer => true,
        _ => false,
    }
}

fn is_caption(e: &Element) -> (r: bool)
    ensures
        r == caption_like(*e),
{
    match e.element_type {
        ElementType::Caption => true,
        _ => match &e.role {
            Some(role) => str_contains(role.as_str(), "caption"),
            None => false,
        },
    }
}

fn is_anchor(t: ElementType) -> (r: bool)
    ensures
        r == anchor_like(t),
{
    match t {
        ElementType::Image | ElementType::Table | ElementType::Chart => true,
        _ => false,
    }
}

fn has_two_columns(es: &Vec<Element>, width: i128, multi_column: bool, gap_permille: u32) -> (r: bool)
    requires
        fits_i64(width as int),
    ensures
        r == two_columns(es@, width as int, multi_column, gap_permille as int),
{
    let mut left: usize = 0;
    let mut right: usize = 0;
    let mut max_left: i128 = 0;
    let mut min_right: i128 = 0;
    let mut i: usize = 0;
    while i < es.len()
        invariant
            i <= es@.len(),
            fits_i64(width as int),
            fits_i64(max_left as int),
            fits_i64(min_right as int),
            left + right <= i,
            column_stats(es@.take(i as int), width as int) == (ColumnStats {
                left: left as nat,
                right: right as nat,
                max_left: max_left as int,
                min_right: min_right as int,
            }),
        decreases es@.len() - i,
    {
        proof {
            assert(es@.take(i + 1).drop_last() =~= es@.take(i as int));
            assert(es@.take(i + 1).last() == es@[i as int]);
        }
        let e = &es[i];
        if is_text_like(e.element_type) {
            let b = placed_box_exec(e, i, width);
            if b.0 + b.2 < width {
                left = left + 1;
                if b.2 > max_left {
                    max_left = b.2;
                }
            } else {
                if right == 0 || b.0 < min_right {
                    min_right = b.0;
                }
                right = right + 1;
            }
        }
        i = i + 1;
    }
    proof {
        assert(es@.take(i as int) =~= es@);
        let gp = gap_permille as int;
        assert(-0x8000_0000_0000_0000 * 0x1_0000_0000 <= width * gp <= 0x8000_0000_0000_0000
            * 0x1_0000_0000) by (nonlinear_arith)
            requires
                fits_i64(width as int),
                0 <= gp <= 0xffff_ffff,
        ;
    }
    multi_column && left >= 2 && right >= 2 && 1000 * (min_right - max_left) >= width * (
    gap_permille as i128)
}

/// The keys of the sort, one entry per element.
struct SortKeys {
    cols: Vec<u8>,
    ys: Vec<i128>,
    xs: Vec<i128>,
}

spec fn keys_of(k: SortKeys, es: Seq<Element>, width: int, two: bool) -> bool {
    &&& k.cols@.len() == es.len()
    &&& k.ys@.len() == es.len()
    &&& k.xs@.len() == es.len()
    &&& forall|i: int|
        0 <= i < es.len() ==> {
            &&& #[trigger] k.cols@[i] as int == column_of(es, i, width, two)
            &&& k.ys@[i] as int == placed_box(es[i], i, width).1
            &&& k.xs@[i] as int == placed_box(es[i], i, width).0
        }
}

fn sort_keys(es: &Vec<Element>, width: i128, two: bool) -> (k: SortKeys)
    requires
        fits_i64(width as int),
    ensures
        keys_of(k, es@, width as int, two),
{
    let mut cols: Vec<u8> = Vec::new();
    let mut ys: Vec<i128> = Vec::new();
    let mut xs: Vec<i128> = Vec::new();
    let mut i: usize = 0;
    while i < es.len()
        invariant
            i <= es@.len(),
            fits_i64(width as int),
            cols@.len() == i,
            ys@.len() == i,
            xs@.len() == i,
            forall|j: int|
                0 <= j < i ==> {
                    &&& #[trigger] cols@[j] as int == column_of(es@, j, width as int, two)
                    &&& ys@[j] as int == placed_box(es@[j], j, width as int).1
                    &&& xs@[j] as int == placed_box(es@[j], j, width as int).0
                },
        decreases es@.len() - i,
    {
        let e = &es[i];
        let b = placed_box_exec(e, i, width);
        let c: u8 = if two && is_text_like(e.element_type) && !(b.0 + b.2 < width) {
            1
        } else {
            0
        };
        cols.push(c);
        ys.push(b.1);
        xs.push(b.0);
        i = i + 1;
    }
    SortKeys { cols, ys, xs }
}

fn key_lt_exec(k: &SortKeys, a: usize, b: usize, Ghost(es): Ghost<Seq<Element>>, Ghost(width): Ghost<int>, Ghost(two): Ghost<bool>) -> (r: bool)
    requires
        keys_of(*k, es, width, two),
        a < es.len(),
        b < es.len(),
    ensures
        r == key_lt(es, width, two, a as int, b as int),
{
    let ca = k.cols[a];
    let cb = k.cols[b];
    let ya = k.ys[a];
    let yb = k.ys[b];
    let xa = k.xs[a];
    let xb = k.xs[b];
    ca < cb || (ca == cb && (ya < yb || (ya == yb && (xa < xb || (xa == xb && a < b)))))
}

/// The positions of the page's elements in the order of the sort.
fn sorted_positions(k: &SortKeys, n: usize, Ghost(es): Ghost<Seq<Element>>, Ghost(width): Ghost<int>, Ghost(two): Ghost<bool>) -> (ord: Vec<usize>)
    requires
        keys_of(*k, es, width, two),
        n == es.len(),
    ensures
        sorted_order(es, width, two, ord@),
{
    let mut ord: Vec<usize> = Vec::new();
    let mut i: usize = 0;
    while i < n
        invariant
            keys_of(*k, es, width, two),
            n == es.len(),
            i <= n,
            ord@.len() == i,
            forall|q: int| 0 <= q < ord@.len() ==> #[trigger] ord@[q] < i,
            forall|a: int, b: int|
                0 <= a < b < ord@.len() ==> key_lt(es, width, two, #[trigger] ord@[a] as int, #[trigger] ord@[b] as int),
        decreases n - i,
    {
        let mut p: usize = 0;
        while p < ord.len()
            invariant
                keys_of(*k, es, width, two),
                n == es.len(),
                i < n,
                p <= ord@.len(),
                ord@.len() == i,
                forall|q: int| 0 <= q < ord@.len() ==> #[trigger] ord@[q] < i,
                forall|q: int| 0 <= q < p ==> key_lt(es, width, two, #[trigger] ord@[q] as int, i as int),
            ensures
                p <= ord@.len(),
                forall|q: int| 0 <= q < p ==> key_lt(es, width, two, #[trigger] ord@[q] as int, i as int),
                p == ord@.len() || key_lt(es, width, two, i as int, ord@[p as int] as int),
            decreases ord@.len() - p,
        {
            if key_lt_exec(k, i, ord[p], Ghost(es), Ghost(width), Ghost(two)) {
                break;
            }
            proof {
                lemma_key_total(es, width, two, i as int, ord@[p as int] as int);
            }
            p = p + 1;
        }
        let ghost old_ord = ord@;
        ord.insert(p, i);
        proof {
            assert forall|q: int| 0 <= q < ord@.len() implies #[trigger] ord@[q] < i + 1 by {
                if q < p {
                    assert(ord@[q] == old_ord[q]);
                } else if q > p {
                    assert(ord@[q] == old_ord[q - 1]);
                }
            }
            assert forall|a: int, b: int| 0 <= a < b < ord@.len() implies key_lt(
                es,
                width,
                two,
                #[trigger] ord@[a] as int,
                #[trigger] ord@[b] as int,
            ) by {
                if b < p {
                    assert(ord@[a] == old_ord[a]);
                    assert(ord@[b] == old_ord[b]);
                } else if b == p {
                    assert(ord@[a] == old_ord[a]);
                } else if a < p {
                    assert(ord@[a] == old_ord[a]);
                    assert(ord@[b] == old_ord[b - 1]);
                    assert(key_lt(es, width, two, old_ord[a] as int, i as int));
                    assert(key_lt(es, width, two, i as int, old_ord[p as int] as int));
                    if b - 1 > p {
                        assert(key_lt(es, width, two, old_ord[p as int] as int, old_ord[b - 1] as int));
                        lemma_key_trans(es, width, two, i as int, old_ord[p as int] as int, old_ord[b - 1] as int);
                    }
                    lemma_key_trans(es, width, two, old_ord[a] as int, i as int, old_ord[b - 1] as int);
                } else if a == p {
                    assert(ord@[b] == old_ord[b - 1]);
                    if b - 1 > p {
                        assert(key_lt(es, width, two, old_ord[p as int] as int, old_ord[b - 1] as int));
                        lemma_key_trans(es, width, two, i as int, old_ord[p as int] as int, old_ord[b - 1] as int);
                    }
                } else {
                    assert(ord@[a] == old_ord[a - 1]);
                    assert(ord@[b] == old_ord[b - 1]);
                }
            }
        }
        i = i + 1;
    }
    ord
}

/// The position and distance of the best anchor for the caption box `cb` among the
/// first `upto` entries of `ord`.
fn find_best_anchor(es: &Vec<Element>, ord: &Vec<usize>, upto: usize, cb: BBox) -> (r: Option<(usize, i128)>)
    requires
        upto <= ord@.len(),
        forall|q: int| 0 <= q < ord@.len() ==> #[trigger] ord@[q] < es@.len(),
    ensures
        match best_anchor(es@, ord@, upto as nat, cb) {
            Some(b) => r.is_some() && r.unwrap().0 as int == b.0 && r.unwrap().1 as int == b.1,
            None => r.is_none(),
        },
        r matches Some(b) ==> 0 <= b.1 < 0x1_0000_0000_0000_0000,
{
    let mut best: Option<(usize, i128)> = None;
    let mut pos: usize = 0;
    while pos < upto
        invariant
            pos <= upto,
            upto <= ord@.len(),
            forall|q: int| 0 <= q < ord@.len() ==> #[trigger] ord@[q] < es@.len(),
            match best_anchor(es@, ord@, pos as nat, cb) {
                Some(b) => best.is_some() && best.unwrap().0 as int == b.0 && best.unwrap().1 as int
                    == b.1,
                None => best.is_none(),
            },
            best matches Some(b) ==> 0 <= b.1 < 0x1_0000_0000_0000_0000,
        decreases upto - pos,
    {
        let a = &es[ord[pos]];
        match a.bbox {
            Some(ab) => {
                let dy: i128 = if (cb.y0 as i128) >= (ab.y1 as i128) {
                    (cb.y0 as i128) - (ab.y1 as i128)
                } else {
                    (ab.y1 as i128) - (cb.y0 as i128)
                };
                let overlaps = ab.x1 > ab.x0 && cb.x1 > ab.x0 && ab.x1 > cb.x0 && cb.x1 > cb.x0;
                let better = match best {
                    None => true,
                    Some(bv) => dy < bv.1,
                };
                if is_anchor(a.element_type) && overlaps && better {
                    best = Some((pos, dy));
                }
            },
            None => {},
        }
        pos = pos + 1;
    }
    best
}

/// Moves each caption right behind its figure or table, in turn from the first
/// position to the last.
fn place_captions(es: &Vec<Element>, ord: &mut Vec<usize>, height: i128)
    requires
        is_perm(old(ord)@, es@.len()),
        fits_i64(height as int),
    ensures
        final(ord)@ == caption_pass(es@, old(ord)@, 0, height as int),
{
    let n = ord.len();
    let mut cap_pos: usize = 0;
    while cap_pos < n
        invariant
            n == ord@.len(),
            cap_pos <= n,
            is_perm(ord@, es@.len()),
            fits_i64(height as int),
            caption_pass(es@, ord@, cap_pos as nat, height as int) == caption_pass(
                es@,
                old(ord)@,
                0,
                height as int,
            ),
        decreases n - cap_pos,
    {
        proof {
            lemma_step_keeps_perm(es@, ord@, cap_pos as int, height as int);
        }
        let ghost before = ord@;
        let cap_idx = ord[cap_pos];
        let cap = &es[cap_idx];
        if is_caption(cap) {
            match cap.bbox {
                Some(cb) => {
                    let best = find_best_anchor(es, ord, cap_pos, cb);
                    proof {
                        lemma_best_anchor_before(es@, ord@, cap_pos as nat, cb);
                    }
                    match best {
                        Some(bv) => {
                            if bv.0 + 1 != cap_pos && 10 * bv.1 <= height {
                                let moved = ord.remove(cap_pos);
                                ord.insert(bv.0 + 1, moved);
                            }
                        },
                        None => {},
                    }
                },
                None => {},
            }
        }
        proof {
            assert(ord@ == caption_step(es@, before, cap_pos as int, height as int));
        }
        cap_pos = cap_pos + 1;
    }
}

/// The page's elements in the order `ord`, numbered from 1 on the page and from
/// `g` across the document.
fn renumber(elems: Vec<Element>, ord: &Vec<usize>, g: u32, exclude: bool) -> (r: Vec<Element>)
    requires
        is_perm(ord@, elems@.len()),
        1 <= g,
        g + elems@.len() <= u32::MAX,
    ensures
        r@.len() == ord@.len(),
        forall|k: int|
            0 <= k < ord@.len() ==> #[trigger] r@[k] == numbered(
                elems@[ord@[k] as int],
                k,
                g as int,
                exclude,
            ),
{
    let ghost orig = elems@;
    let n: usize = elems.len();
    let mut elems = elems;
    let mut slots: Vec<Option<Element>> = Vec::new();
    while elems.len() > 0
        invariant
            elems@.len() + slots@.len() == n,
            n == orig.len(),
            elems@ == orig.take(elems@.len() as int),
            forall|j: int| 0 <= j < slots@.len() ==> #[trigger] slots@[j] == Some(orig[n - 1 - j]),
        decreases elems@.len(),
    {
        let e = elems.pop().unwrap();
        slots.push(Some(e));
        assert(orig.take(elems@.len() as int) =~= orig.take(elems@.len() + 1 as int).drop_last());
    }
    let mut out: Vec<Element> = Vec::new();
    let mut k: usize = 0;
    while k < n
        invariant
            is_perm(ord@, n as nat),
            n == orig.len(),
            slots@.len() == n,
            1 <= g,
            g + n <= u32::MAX,
            k <= n,
            out@.len() == k,
            forall|j: int|
                0 <= j < n ==> #[trigger] slots@[j] == if (exists|q: int|
                    0 <= q < k && ord@[q] as int == n - 1 - j) {
                    None
                } else {
                    Some(orig[n - 1 - j])
                },
            forall|q: int|
                0 <= q < k ==> #[trigger] out@[q] == numbered(orig[ord@[q] as int], q, g as int, exclude),
        decreases n - k,
    {
        let idx = ord[k];
        let slot = n - 1 - idx;
        proof {
            assert(!(exists|q: int| 0 <= q < k && ord@[q] as int == n - 1 - slot)) by {
                if exists|q: int| 0 <= q < k && ord@[q] as int == n - 1 - slot {
                    let q = choose|q: int| 0 <= q < k && ord@[q] as int == n - 1 - slot;
                    assert(ord@[q] != ord@[k as int]);
                }
            }
            assert(slots@[slot as int] == Some(orig[idx as int]));
        }
        let ghost before = slots@;
        let taken = slots[slot].take();
        let mut e = taken.unwrap();
        e.reading_order = Some((k + 1) as u32);
        e.global_order = Some(g + k as u32);
        if exclude {
            match e.element_type {
                ElementType::Header | ElementType::Footer => {
                    e.exclude_from_chunks = true;
                },
                _ => {},
            }
        }
        out.push(e);
        proof {
            assert forall|j: int| 0 <= j < n implies #[trigger] slots@[j] == if (exists|q: int|
                0 <= q < k + 1 && ord@[q] as int == n - 1 - j) {
                None
            } else {
                Some(orig[n - 1 - j])
            } by {
                if j == slot {
                    assert(ord@[k as int] as int == n - 1 - j);
                } else {
                    assert(slots@[j] == before[j]);
                    if exists|q: int| 0 <= q < k + 1 && ord@[q] as int == n - 1 - j {
                        let q = choose|q: int| 0 <= q < k + 1 && ord@[q] as int == n - 1 - j;
                        assert(q < k);
                    }
                }
            }
        }
        k = k + 1;
    }
    out
}

fn identity_order(n: usize) -> (ord: Vec<usize>)
    ensures
        ord@ == identity(n as nat),
{
    let mut ord: Vec<usize> = Vec::new();
    let mut i: usize = 0;
    while i < n
        invariant
            i <= n,
            ord@ == identity(i as nat),
        decreases n - i,
    {
        ord.push(i);
        i = i + 1;
        assert(ord@ =~= identity(i as nat));
    }
    ord
}

/// Puts the elements of every page in reading order and numbers them: from 1 on
/// each page (`reading_order`) and from 1 across the document (`global_order`).
///
/// With the strategy `natural` the elements keep their order. Otherwise they are
/// sorted by column (on a two-column page), top edge, left edge and original
/// position, and each caption then moves behind the nearest figure, table or chart
/// above it that it overlaps horizontally, when that lies within a tenth of the
/// page height. With the header and footer handling `exclude_from_chunks`, headers
/// and footers are marked to be left out of the chunks.
pub fn assign_layout_aware_reading_order(
    pages: &mut Vec<Page>,
    _layout_regions: &[LayoutRegion],
    options: ReadingOrderOptions,
)
    requires
        total_elements(old(pages)@) < u32::MAX,
    ensures
        final(pages)@.len() == old(pages)@.len(),
        forall|i: int|
            0 <= i < old(pages)@.len() ==> #[trigger] reordered_page(
                old(pages)@[i],
                final(pages)@[i],
                (1 + total_elements(old(pages)@.take(i))) as int,
                options,
            ),
{
    let strategy = lower_chars(chars_of(options.strategy.as_str()).as_slice());
    let natural = chars_eq(strategy.as_slice(), "natural");
    let handling = chars_of(options.header_footer_handling.as_str());
    let exclude = chars_eq(handling.as_slice(), "exclude_from_chunks");
    let mut taken: Vec<Page> = Vec::new();
    std::mem::swap(&mut taken, pages);
    let ghost orig = taken@;
    let total: usize = taken.len();
    let mut out: Vec<Page> = Vec::new();
    let mut global: u32 = 1;
    let mut i: usize = 0;
    while taken.len() > 0
        invariant
            i + taken@.len() == orig.len(),
            orig.len() == total,
            taken@ == orig.skip(i as int),
            out@.len() == i,
            total_elements(orig) < u32::MAX,
            global as int == 1 + total_elements(orig.take(i as int)),
            natural == is_natural(options.strategy@),
            exclude == (options.header_footer_handling@ == "exclude_from_chunks"@),
            forall|k: int|
                0 <= k < i ==> #[trigger] reordered_page(
                    orig[k],
                    out@[k],
                    (1 + total_elements(orig.take(k))) as int,
                    options,
                ),
        decreases taken@.len(),
    {
        let mut page = taken.remove(0);
        assert(page == orig[i as int]);
        proof {
            lemma_total_elements_prefix(orig, i + 1);
            assert(orig.take(i + 1).drop_last() =~= orig.take(i as int));
            assert(orig.take(i + 1).last() == page);
        }
        let n = page.elements.len();
        let ghost es = page.elements@;
        let mut elems: Vec<Element> = Vec::new();
        std::mem::swap(&mut elems, &mut page.elements);
        if natural {
            let ord = identity_order(n);
            proof {
                assert forall|i2: int, j2: int| 0 <= i2 < j2 < ord@.len() implies #[trigger] ord@[i2]
                    != #[trigger] ord@[j2] by {}
            }
            let placed = renumber(elems, &ord, global, false);
            page.elements = placed;
            proof {
                assert(ordered_page(orig[i as int], page, identity(es.len()), global as int, false));
            }
        } else {
            let width: i128 = match page.width {
                Some(w) => w as i128,
                None => 1000,
            };
            let height: i128 = match page.height {
                Some(h) => h as i128,
                None => 1400,
            };
            let two = has_two_columns(&elems, width, options.multi_column, options.column_gap_threshold_permille);
            let keys = sort_keys(&elems, width, two);
            let mut ord = sorted_positions(&keys, n, Ghost(es), Ghost(width as int), Ghost(two));
            let ghost sorted = ord@;
            proof {
                lemma_sorted_is_perm(es, width as int, two, sorted);
            }
            place_captions(&elems, &mut ord, height);
            proof {
                law_layout_order_is_permutation(es, width as int, two, sorted, height as int);
            }
            let placed = renumber(elems, &ord, global, exclude);
            page.elements = placed;
            proof {
                assert(sorted_order(es, page_width(orig[i as int]), two, sorted));
                assert(ordered_page(
                    orig[i as int],
                    page,
                    caption_pass(es, sorted, 0, page_height(orig[i as int])),
                    global as int,
                    exclude,
                ));
            }
        }
        out.push(page);
        global = global + n as u32;
        i = i + 1;
        assert(orig.skip(i as int) =~= orig.skip(i - 1).drop_first());
    }
    *pages = out;
}


/// What the reading order leaves to the chunks: on a page reordered with the
/// handling `exclude_from_chunks` (and a strategy other than `natural`), every
/// header and footer is marked to be left out.
proof fn lemma_reordered_excludes(o: Page, n: Page, g: int, options: ReadingOrderOptions)
    requires
        reordered_page(o, n, g, options),
        !is_natural(options.strategy@),
        options.header_footer_handling@ == "exclude_from_chunks"@,
    ensures
        forall|k: int|
            0 <= k < n.elements@.len() && ((#[trigger] n.elements@[k]).element_type == ElementType::Header
                || n.elements@[k].element_type == ElementType::Footer) ==> n.elements@[k].exclude_from_chunks,
{
    let es = o.elements@;
    let two = two_columns(es, page_width(o), options.multi_column, options.column_gap_threshold_permille as int);
    let ord = choose|ord: Seq<usize>|
        #![trigger sorted_order(es, page_width(o), two, ord)]
        sorted_order(es, page_width(o), two, ord) && ordered_page(
            o,
            n,
            caption_pass(es, ord, 0, page_height(o)),
            g,
            options.header_footer_handling@ == "exclude_from_chunks"@,
        );
    let fin = caption_pass(es, ord, 0, page_height(o));
    assert forall|k: int|
        0 <= k < n.elements@.len() && ((#[trigger] n.elements@[k]).element_type == ElementType::Header
            || n.elements@[k].element_type == ElementType::Footer) implies n.elements@[k].exclude_from_chunks by {
        assert(n.elements@[k] == numbered(es[fin[k] as int], k, g, true));
    }
}

proof fn lemma_kept_element_ids(es: Seq<Element>, x: Seq<char>)
    requires
        kept_ids_elements(es).contains(x),
    ensures
        exists|k: int| 0 <= k < es.len() && !(#[trigger] es[k]).exclude_from_chunks && es[k].element_id@ == x,
    decreases es.len(),
{
    let prev = kept_ids_elements(es.drop_last());
    if prev.contains(x) {
        lemma_kept_element_ids(es.drop_last(), x);
        let k = choose|k: int| 0 <= k < es.drop_last().len() && !(#[trigger] es.drop_last()[k]).exclude_from_chunks
            && es.drop_last()[k].element_id@ == x;
        assert(es[k] == es.drop_last()[k]);
    } else {
        assert(es[es.len() - 1] == es.last());
    }
}

proof fn lemma_kept_page_ids(pages: Seq<Page>, x: Seq<char>)
    requires
        kept_ids(pages).contains(x),
    ensures
        exists|p: int, k: int|
            0 <= p < pages.len() && 0 <= k < pages[p].elements@.len() && !(#[trigger] pages[p].elements@[k]).exclude_from_chunks
                && pages[p].elements@[k].element_id@ == x,
    decreases pages.len(),
{
    let prev = kept_ids(pages.drop_last());
    let last = kept_ids_elements(pages.last().elements@);
    let i = choose|i: int| 0 <= i < kept_ids(pages).len() && kept_ids(pages)[i] == x;
    if i < prev.len() {
        assert(prev[i] == x);
        lemma_kept_page_ids(pages.drop_last(), x);
        let (p, k) = choose|p: int, k: int|
            0 <= p < pages.drop_last().len() && 0 <= k < pages.drop_last()[p].elements@.len()
                && !(#[trigger] pages.drop_last()[p].elements@[k]).exclude_from_chunks
                && pages.drop_last()[p].elements@[k].element_id@ == x;
        assert(pages[p] == pages.drop_last()[p]);
    } else {
        assert(last[i - prev.len()] == x);
        lemma_kept_element_ids(pages.last().elements@, x);
        let k = choose|k: int| 0 <= k < pages.last().elements@.len() && !(#[trigger] pages.last().elements@[k]).exclude_from_chunks
            && pages.last().elements@[k].element_id@ == x;
        assert(pages[pages.len() - 1] == pages.last());
    }
}

/// Headers and footers stay out of the chunks: after the layout-aware reading
/// order with the handling `exclude_from_chunks`, every element named by the
/// document's chunks is an element of the pages that is neither a header nor a
/// footer.
pub proof fn law_excluded_headers_footers_stay_out_of_chunks(
    before: Seq<Page>,
    after: Seq<Page>,
    options: ReadingOrderOptions,
    max: nat,
)
    requires
        after.len() == before.len(),
        forall|i: int|
            0 <= i < before.len() ==> #[trigger] reordered_page(
                before[i],
                after[i],
                (1 + total_elements(before.take(i))) as int,
                options,
            ),
        !is_natural(options.strategy@),
        options.header_footer_handling@ == "exclude_from_chunks"@,
    ensures
        forall|x: Seq<char>|
            #[trigger] concat_ids(document_chunks(max, after)).contains(x) ==> exists|p: int, k: int|
                0 <= p < after.len() && 0 <= k < after[p].elements@.len() && (#[trigger] after[p].elements@[k]).element_id@ == x
                    && after[p].elements@[k].element_type != ElementType::Header
                    && after[p].elements@[k].element_type != ElementType::Footer,
{
    law_chunks_partition_elements(max, after);
    assert forall|x: Seq<char>| #[trigger] concat_ids(document_chunks(max, after)).contains(x) implies exists|p: int, k: int|
        0 <= p < after.len() && 0 <= k < after[p].elements@.len() && (#[trigger] after[p].elements@[k]).element_id@ == x
            && after[p].elements@[k].element_type != ElementType::Header
            && after[p].elements@[k].element_type != ElementType::Footer by {
        lemma_kept_page_ids(after, x);
        let (p, k) = choose|p: int, k: int|
            0 <= p < after.len() && 0 <= k < after[p].elements@.len() && !(#[trigger] after[p].elements@[k]).exclude_from_chunks
                && after[p].elements@[k].element_id@ == x;
        lemma_reordered_excludes(before[p], after[p], (1 + total_elements(before.take(p))) as int, options);
        assert(after[p].elements@[k].element_id@ == x);
    }
}

} // verus!
